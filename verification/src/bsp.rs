use crate::error::GenerationError;
use crate::random::{pick_in_range, std_rng_word, RandomSource};
use crate::rect::Rect;
use vstd::prelude::*;

verus! {

/// What a node of the partition tree holds below its rectangle: a leaf may
/// own a room, any other node owns its two parts.
pub enum BspContent {
    Leaf { room: Option<Rect> },
    Split { left: Box<BspNode>, right: Box<BspNode> },
}

/// A node of the binary space partition of a rectangle.
pub struct BspNode {
    pub rect: Rect,
    pub depth: i32,
    pub min_room_size: i32,
    pub content: BspContent,
}

/// Whether an extent can be cut in two parts that each still hold a room of
/// `min` cells with a free cell on both sides.
pub open spec fn can_cut(extent: int, min: int) -> bool {
    extent >= 2 * (min + 2)
}

/// The direction of a cut where both are possible, decided by a word: three
/// times out of four the longer side is cut, and a square is cut either way
/// half of the time. `true` cuts the width.
pub open spec fn cuts_width(rect: Rect, word: u32) -> bool {
    let roll = word % 4;
    if rect.w > rect.h {
        roll != 0
    } else if rect.h > rect.w {
        roll == 0
    } else {
        roll < 2
    }
}

/// The two parts of `rect` when it is cut `k` cells from its left edge
/// (`across`) or from its top edge.
pub open spec fn halves(rect: Rect, across: bool, k: int) -> (Rect, Rect) {
    if across {
        (
            Rect { x: rect.x, y: rect.y, w: k as i32, h: rect.h },
            Rect { x: (rect.x + k) as i32, y: rect.y, w: (rect.w - k) as i32, h: rect.h },
        )
    } else {
        (
            Rect { x: rect.x, y: rect.y, w: rect.w, h: k as i32 },
            Rect { x: rect.x, y: (rect.y + k) as i32, w: rect.w, h: (rect.h - k) as i32 },
        )
    }
}

/// `a` and `b` are the two parts of one straight cut through `parent`.
pub open spec fn splits_into(parent: Rect, a: Rect, b: Rect) -> bool {
    ||| exists|k: int| 0 < k < parent.w && #[trigger] halves(parent, true, k) == (a, b)
    ||| exists|k: int| 0 < k < parent.h && #[trigger] halves(parent, false, k) == (a, b)
}

/// The tree that partitioning `rect` gives, and the place in the stream of
/// `seed` after it, when the stream stands at word `pos`.
///
/// A node at the depth limit, or one that is too small to be cut either way,
/// is a leaf. Any other node is cut: where both directions are possible one
/// word decides between them; the next word picks the place of the cut among
/// those that leave both parts large enough; then the first part is
/// partitioned and after it the second.
pub open spec fn grown(
    rect: Rect,
    depth: i32,
    min: i32,
    max_depth: i32,
    seed: u64,
    pos: nat,
) -> (BspNode, nat)
    decreases max_depth - depth,
{
    let can_w = can_cut(rect.w as int, min as int);
    let can_h = can_cut(rect.h as int, min as int);
    if depth >= max_depth || (!can_w && !can_h) {
        (BspNode { rect, depth, min_room_size: min, content: BspContent::Leaf { room: None } }, pos)
    } else {
        let across = if can_w && can_h {
            cuts_width(rect, std_rng_word(seed, pos))
        } else {
            can_w
        };
        let after_choice = if can_w && can_h {
            pos + 1
        } else {
            pos
        };
        let extent = if across {
            rect.w
        } else {
            rect.h
        };
        let k = pick_in_range(std_rng_word(seed, after_choice), min + 2, extent - (min + 2));
        let parts = halves(rect, across, k);
        let l = grown(parts.0, (depth + 1) as i32, min, max_depth, seed, after_choice + 1);
        let r = grown(parts.1, (depth + 1) as i32, min, max_depth, seed, l.1);
        (
            BspNode {
                rect,
                depth,
                min_room_size: min,
                content: BspContent::Split { left: Box::new(l.0), right: Box::new(r.0) },
            },
            r.1,
        )
    }
}

/// The room of a leaf: four words pick, in this order, its width and its
/// height, each from the smallest room up to the leaf less its margin, and
/// then its column and its row among those that keep the margin.
pub open spec fn placed_room(leaf: Rect, min: i32, seed: u64, pos: nat) -> Rect {
    let w = pick_in_range(std_rng_word(seed, pos), min as int, leaf.w - 2);
    let h = pick_in_range(std_rng_word(seed, pos + 1), min as int, leaf.h - 2);
    let x = pick_in_range(std_rng_word(seed, pos + 2), leaf.x + 1, leaf.x + leaf.w - 1 - w);
    let y = pick_in_range(std_rng_word(seed, pos + 3), leaf.y + 1, leaf.y + leaf.h - 1 - h);
    Rect { x: x as i32, y: y as i32, w: w as i32, h: h as i32 }
}

/// The corridor between two rooms: a run of cells along the row of the first
/// room's middle, from the column of one middle to that of the other, and a
/// run along the column of the second room's middle between the two rows.
/// The two runs meet in the cell of that row and that column.
pub open spec fn corridor(a: Rect, b: Rect) -> Seq<Rect> {
    let ax = a.center_x();
    let ay = a.center_y();
    let bx = b.center_x();
    let by = b.center_y();
    seq![
        Rect {
            x: (if ax <= bx { ax } else { bx }) as i32,
            y: ay as i32,
            w: ((if ax <= bx { bx - ax } else { ax - bx }) + 1) as i32,
            h: 1,
        },
        Rect {
            x: bx as i32,
            y: (if ay <= by { ay } else { by }) as i32,
            w: 1,
            h: ((if ay <= by { by - ay } else { ay - by }) + 1) as i32,
        },
    ]
}

/// The corridor between the rooms that stand for two subtrees; none where a
/// subtree has no room.
pub open spec fn link(a: Option<Rect>, b: Option<Rect>) -> Seq<Rect> {
    if a.is_some() && b.is_some() {
        corridor(a.unwrap(), b.unwrap())
    } else {
        Seq::empty()
    }
}

impl BspNode {
    /// The rectangles of the leaves, depth first, the first part before the
    /// second.
    pub open spec fn leaf_rects(self) -> Seq<Rect>
        decreases self,
    {
        match self.content {
            BspContent::Leaf { room } => seq![self.rect],
            BspContent::Split { left, right } => left.leaf_rects() + right.leaf_rects(),
        }
    }

    /// The rooms of the leaves that have one, in the order of the leaves.
    pub open spec fn leaf_rooms(self) -> Seq<Rect>
        decreases self,
    {
        match self.content {
            BspContent::Leaf { room } => if room.is_some() {
                seq![room.unwrap()]
            } else {
                Seq::empty()
            },
            BspContent::Split { left, right } => left.leaf_rooms() + right.leaf_rooms(),
        }
    }

    /// The room that stands for the subtree: the first in the order of the
    /// leaves.
    pub open spec fn first_room(self) -> Option<Rect> {
        if self.leaf_rooms().len() > 0 {
            Some(self.leaf_rooms()[0])
        } else {
            None
        }
    }

    /// The corridors of the subtree: those of the first part, those of the
    /// second, then the one that joins the two parts.
    pub open spec fn passages(self) -> Seq<Rect>
        decreases self,
    {
        match self.content {
            BspContent::Leaf { room } => Seq::empty(),
            BspContent::Split { left, right } => left.passages() + right.passages() + link(
                left.first_room(),
                right.first_room(),
            ),
        }
    }

    /// The tree is a partition: every node has a rectangle that is not empty,
    /// the two parts of a node are the parts of one cut through it, one level
    /// further down and with the same smallest room, and a room lies in its
    /// leaf with a free cell on every side.
    pub open spec fn wf(self) -> bool
        decreases self,
    {
        &&& self.rect.valid()
        &&& self.min_room_size >= 1
        &&& match self.content {
            BspContent::Leaf { room } => room.is_some() ==> self.rect.holds_with_margin(
                room.unwrap(),
            ),
            BspContent::Split { left, right } => {
                &&& left.wf()
                &&& right.wf()
                &&& splits_into(self.rect, left.rect, right.rect)
                &&& left.depth == self.depth + 1
                &&& right.depth == self.depth + 1
                &&& left.min_room_size == self.min_room_size
                &&& right.min_room_size == self.min_room_size
            },
        }
    }

    /// Every leaf is large enough for the smallest room and its margin.
    pub open spec fn rooms_fit(self) -> bool
        decreases self,
    {
        match self.content {
            BspContent::Leaf { room } => {
                &&& self.rect.valid()
                &&& self.min_room_size >= 1
                &&& self.rect.w >= self.min_room_size + 2
                &&& self.rect.h >= self.min_room_size + 2
            },
            BspContent::Split { left, right } => left.rooms_fit() && right.rooms_fit(),
        }
    }

    /// No leaf has a room.
    pub open spec fn roomless(self) -> bool
        decreases self,
    {
        match self.content {
            BspContent::Leaf { room } => room.is_none(),
            BspContent::Split { left, right } => left.roomless() && right.roomless(),
        }
    }

    /// Every leaf has a room, which is at least as large as the smallest room
    /// and lies in the leaf with a free cell on every side.
    pub open spec fn furnished(self) -> bool
        decreases self,
    {
        match self.content {
            BspContent::Leaf { room } => {
                &&& room.is_some()
                &&& self.rect.holds_with_margin(room.unwrap())
                &&& room.unwrap().w >= self.min_room_size
                &&& room.unwrap().h >= self.min_room_size
            },
            BspContent::Split { left, right } => left.furnished() && right.furnished(),
        }
    }

    /// The tree with a room in every leaf, and the place in the stream of
    /// `seed` after the rooms were placed, leaf by leaf, from word `pos` on.
    pub open spec fn with_rooms_from(self, seed: u64, pos: nat) -> (BspNode, nat)
        decreases self,
    {
        match self.content {
            BspContent::Leaf { room } => (
                BspNode {
                    rect: self.rect,
                    depth: self.depth,
                    min_room_size: self.min_room_size,
                    content: BspContent::Leaf {
                        room: Some(placed_room(self.rect, self.min_room_size, seed, pos)),
                    },
                },
                pos + 4,
            ),
            BspContent::Split { left, right } => {
                let l = left.with_rooms_from(seed, pos);
                let r = right.with_rooms_from(seed, l.1);
                (
                    BspNode {
                        rect: self.rect,
                        depth: self.depth,
                        min_room_size: self.min_room_size,
                        content: BspContent::Split { left: Box::new(l.0), right: Box::new(r.0) },
                    },
                    r.1,
                )
            },
        }
    }

    /// A single leaf over `rect`, without a room.
    pub fn new(rect: Rect) -> (node: BspNode)
        ensures
            node == (BspNode {
                rect,
                depth: 0,
                min_room_size: 1,
                content: BspContent::Leaf { room: None },
            }),
            rect.valid() ==> node.wf(),
    {
        BspNode { rect, depth: 0, min_room_size: 1, content: BspContent::Leaf { room: None } }
    }

    /// Partitions `rect` from the given depth on.
    fn grow(rect: Rect, rng: &mut RandomSource, min: i32, max_depth: i32, depth: i32) -> (node:
        BspNode)
        requires
            rect.valid(),
            min >= 1,
            0 <= depth,
        ensures
            node == grown(rect, depth, min, max_depth, old(rng).seed(), old(rng).drawn()).0,
            final(rng).drawn() == grown(
                rect,
                depth,
                min,
                max_depth,
                old(rng).seed(),
                old(rng).drawn(),
            ).1,
            final(rng).seed() == old(rng).seed(),
            node.rect == rect,
            node.depth == depth,
            node.min_room_size == min,
            node.wf(),
            node.roomless(),
            rect.w >= min + 2 && rect.h >= min + 2 ==> node.rooms_fit(),
        decreases max_depth - depth,
    {
        let need: i64 = 2 * (min as i64 + 2);
        let can_w: bool = rect.w as i64 >= need;
        let can_h: bool = rect.h as i64 >= need;
        if depth >= max_depth || (!can_w && !can_h) {
            return BspNode {
                rect,
                depth,
                min_room_size: min,
                content: BspContent::Leaf { room: None },
            };
        }
        let across: bool = if can_w && can_h {
            let word: u32 = rng.word();
            let roll: u32 = word % 4;
            if rect.w > rect.h {
                roll != 0
            } else if rect.h > rect.w {
                roll == 0
            } else {
                roll < 2
            }
        } else {
            can_w
        };
        let extent: i32 = if across {
            rect.w
        } else {
            rect.h
        };
        let least: i32 = min + 2;
        let k: i32 = rng.in_range(least, extent - least);
        let first: Rect = if across {
            Rect { x: rect.x, y: rect.y, w: k, h: rect.h }
        } else {
            Rect { x: rect.x, y: rect.y, w: rect.w, h: k }
        };
        let second: Rect = if across {
            Rect { x: rect.x + k, y: rect.y, w: rect.w - k, h: rect.h }
        } else {
            Rect { x: rect.x, y: rect.y + k, w: rect.w, h: rect.h - k }
        };
        assert(halves(rect, across, k as int) == (first, second));
        let left = BspNode::grow(first, rng, min, max_depth, depth + 1);
        let right = BspNode::grow(second, rng, min, max_depth, depth + 1);
        BspNode {
            rect,
            depth,
            min_room_size: min,
            content: BspContent::Split { left: Box::new(left), right: Box::new(right) },
        }
    }

    /// Partitions the node's rectangle, with `depth` as the node's own depth,
    /// and puts the tree in the node's place. Whatever the node held before is
    /// dropped.
    ///
    /// A rectangle that is empty or reaches past the last coordinate is
    /// refused as `InvalidDimensions`; a smallest room below one cell, a
    /// negative depth limit or a negative depth as `InvalidParameters`. The
    /// node and the stream are then left as they were.
    pub fn split(&mut self, rng: &mut RandomSource, min_room_size: i32, max_depth: i32, depth: i32) -> (done:
        Result<(), GenerationError>)
        ensures
            final(rng).seed() == old(rng).seed(),
            !old(self).rect.valid() ==> done == Err::<(), GenerationError>(
                GenerationError::InvalidDimensions,
            ),
            old(self).rect.valid() && (min_room_size < 1 || max_depth < 0 || depth < 0) ==> done
                == Err::<(), GenerationError>(GenerationError::InvalidParameters),
            old(self).rect.valid() && min_room_size >= 1 && max_depth >= 0 && depth >= 0
                ==> done.is_ok(),
            done.is_err() ==> *final(self) == *old(self) && final(rng).drawn() == old(rng).drawn(),
            done.is_ok() ==> {
                let tree = grown(
                    old(self).rect,
                    depth,
                    min_room_size,
                    max_depth,
                    old(rng).seed(),
                    old(rng).drawn(),
                );
                &&& *final(self) == tree.0
                &&& final(rng).drawn() == tree.1
                &&& final(self).rect == old(self).rect
                &&& final(self).wf()
                &&& final(self).roomless()
                &&& (old(self).rect.w >= min_room_size + 2 && old(self).rect.h >= min_room_size
                    + 2 ==> final(self).rooms_fit())
            },
    {
        if !self.rect.is_valid() {
            return Err(GenerationError::InvalidDimensions);
        }
        if min_room_size < 1 || max_depth < 0 || depth < 0 {
            return Err(GenerationError::InvalidParameters);
        }
        let tree = BspNode::grow(self.rect, rng, min_room_size, max_depth, depth);
        *self = tree;
        Ok(())
    }

    /// Tests `rooms_fit`.
    pub fn has_room_for_rooms(&self) -> (ok: bool)
        ensures
            ok == self.rooms_fit(),
        decreases self,
    {
        match &self.content {
            BspContent::Leaf { room } => {
                self.rect.is_valid() && self.min_room_size >= 1 && self.rect.w - 2
                    >= self.min_room_size && self.rect.h - 2 >= self.min_room_size
            },
            BspContent::Split { left, right } => {
                left.has_room_for_rooms() && right.has_room_for_rooms()
            },
        }
    }

    /// Places a room in every leaf, depth first.
    fn furnish(&mut self, rng: &mut RandomSource)
        requires
            old(self).rooms_fit(),
        ensures
            *final(self) == old(self).with_rooms_from(old(rng).seed(), old(rng).drawn()).0,
            final(rng).drawn() == old(self).with_rooms_from(old(rng).seed(), old(rng).drawn()).1,
            final(rng).seed() == old(rng).seed(),
            final(self).furnished(),
            final(self).leaf_rects() == old(self).leaf_rects(),
            old(self).wf() ==> final(self).wf(),
        decreases *old(self),
    {
        let min: i32 = self.min_room_size;
        let rect: Rect = self.rect;
        match &mut self.content {
            BspContent::Leaf { room } => {
                let w: i32 = rng.in_range(min, rect.w - 2);
                let h: i32 = rng.in_range(min, rect.h - 2);
                let x: i32 = rng.in_range(rect.x + 1, rect.x + rect.w - 1 - w);
                let y: i32 = rng.in_range(rect.y + 1, rect.y + rect.h - 1 - h);
                *room = Some(Rect { x, y, w, h });
            },
            BspContent::Split { left, right } => {
                left.furnish(rng);
                right.furnish(rng);
            },
        }
    }

    /// Gives every leaf a room of its own: at least `min_room_size` cells
    /// each way, inside the leaf, with a free cell on every side.
    ///
    /// Where a leaf is too small for that, nothing is placed and nothing is
    /// drawn, and the answer is `InvalidParameters`.
    pub fn create_rooms(&mut self, rng: &mut RandomSource) -> (done: Result<(), GenerationError>)
        ensures
            final(rng).seed() == old(rng).seed(),
            old(self).rooms_fit() ==> done.is_ok(),
            !old(self).rooms_fit() ==> done == Err::<(), GenerationError>(
                GenerationError::InvalidParameters,
            ),
            done.is_err() ==> *final(self) == *old(self) && final(rng).drawn() == old(rng).drawn(),
            done.is_ok() ==> {
                let placed = old(self).with_rooms_from(old(rng).seed(), old(rng).drawn());
                &&& *final(self) == placed.0
                &&& final(rng).drawn() == placed.1
                &&& final(self).furnished()
                &&& final(self).leaf_rects() == old(self).leaf_rects()
                &&& (old(self).wf() ==> final(self).wf())
            },
    {
        if !self.has_room_for_rooms() {
            return Err(GenerationError::InvalidParameters);
        }
        self.furnish(rng);
        Ok(())
    }

    /// Appends the rectangles of the leaves to `out`.
    fn collect_leaves(&self, out: &mut Vec<Rect>)
        ensures
            final(out)@ == old(out)@ + self.leaf_rects(),
        decreases self,
    {
        match &self.content {
            BspContent::Leaf { room } => {
                out.push(self.rect);
                assert(out@ =~= old(out)@ + self.leaf_rects());
            },
            BspContent::Split { left, right } => {
                left.collect_leaves(out);
                right.collect_leaves(out);
                assert(out@ =~= old(out)@ + self.leaf_rects());
            },
        }
    }

    /// The rectangles of all leaves, depth first: the parts into which the
    /// node's rectangle is cut.
    pub fn get_leaf_rects(&self) -> (leaves: Vec<Rect>)
        ensures
            leaves@ == self.leaf_rects(),
    {
        let mut leaves: Vec<Rect> = Vec::new();
        self.collect_leaves(&mut leaves);
        assert(leaves@ =~= self.leaf_rects());
        leaves
    }

    /// Appends the rooms of the leaves to `out`.
    fn collect_rooms(&self, out: &mut Vec<Rect>)
        ensures
            final(out)@ == old(out)@ + self.leaf_rooms(),
        decreases self,
    {
        match &self.content {
            BspContent::Leaf { room } => {
                match room {
                    Some(r) => {
                        out.push(*r);
                    },
                    None => {},
                }
                assert(out@ =~= old(out)@ + self.leaf_rooms());
            },
            BspContent::Split { left, right } => {
                left.collect_rooms(out);
                right.collect_rooms(out);
                assert(out@ =~= old(out)@ + self.leaf_rooms());
            },
        }
    }

    /// The rooms of all leaves, depth first.
    pub fn get_leaf_rooms(&self) -> (rooms: Vec<Rect>)
        ensures
            rooms@ == self.leaf_rooms(),
    {
        let mut rooms: Vec<Rect> = Vec::new();
        self.collect_rooms(&mut rooms);
        assert(rooms@ =~= self.leaf_rooms());
        rooms
    }

    /// The room that stands for this subtree when it is joined to another:
    /// the room of its first leaf that has one.
    pub fn get_room(&self) -> (room: Option<Rect>)
        ensures
            room == self.first_room(),
        decreases self,
    {
        match &self.content {
            BspContent::Leaf { room } => *room,
            BspContent::Split { left, right } => {
                match left.get_room() {
                    Some(r) => Some(r),
                    None => right.get_room(),
                }
            },
        }
    }

    /// Appends the corridor between the rooms `a` and `b` to `out`.
    fn join(a: &Rect, b: &Rect, out: &mut Vec<Rect>)
        requires
            a.valid(),
            b.valid(),
            -i32::MAX < a.center_x() - b.center_x() < i32::MAX,
            -i32::MAX < a.center_y() - b.center_y() < i32::MAX,
        ensures
            final(out)@ == old(out)@ + corridor(*a, *b),
    {
        let (ax, ay) = a.center();
        let (bx, by) = b.center();
        let along: Rect = if ax <= bx {
            Rect { x: ax, y: ay, w: bx - ax + 1, h: 1 }
        } else {
            Rect { x: bx, y: ay, w: ax - bx + 1, h: 1 }
        };
        let down: Rect = if ay <= by {
            Rect { x: bx, y: ay, w: 1, h: by - ay + 1 }
        } else {
            Rect { x: bx, y: by, w: 1, h: ay - by + 1 }
        };
        out.push(along);
        out.push(down);
        assert(out@ =~= old(out)@ + corridor(*a, *b));
    }

    /// Appends the corridors of the subtree to `passages`: below every node
    /// that has two parts first the corridors inside each part, then one
    /// corridor from the room that stands for the first part to the room that
    /// stands for the second. So every room of the tree is joined to every
    /// other, through the rooms that stand for the parts they lie in.
    pub fn create_passages(&self, passages: &mut Vec<Rect>)
        requires
            self.wf(),
        ensures
            final(passages)@ == old(passages)@ + self.passages(),
        decreases self,
    {
        match &self.content {
            BspContent::Leaf { room } => {
                assert(passages@ =~= old(passages)@ + self.passages());
            },
            BspContent::Split { left, right } => {
                left.create_passages(passages);
                right.create_passages(passages);
                let a: Option<Rect> = left.get_room();
                let b: Option<Rect> = right.get_room();
                match (a, b) {
                    (Some(ra), Some(rb)) => {
                        proof {
                            lemma_rooms_enclosed(**left);
                            lemma_rooms_enclosed(**right);
                        }
                        BspNode::join(&ra, &rb, passages);
                    },
                    _ => {},
                }
                assert(passages@ =~= old(passages)@ + self.passages());
            },
        }
    }
}

/// In a partition every room lies inside the rectangle of every node above
/// it, and is not empty.
pub proof fn lemma_rooms_enclosed(node: BspNode)
    requires
        node.wf(),
    ensures
        forall|i: int|
            0 <= i < node.leaf_rooms().len() ==> node.rect.encloses(#[trigger] node.leaf_rooms()[i])
                && node.leaf_rooms()[i].w > 0 && node.leaf_rooms()[i].h > 0,
    decreases node,
{
    match node.content {
        BspContent::Leaf { room } => {},
        BspContent::Split { left, right } => {
            lemma_rooms_enclosed(*left);
            lemma_rooms_enclosed(*right);
            let rooms = node.leaf_rooms();
            assert forall|i: int| 0 <= i < rooms.len() implies node.rect.encloses(
                #[trigger] rooms[i],
            ) && rooms[i].w > 0 && rooms[i].h > 0 by {
                if i < left.leaf_rooms().len() {
                    assert(rooms[i] == left.leaf_rooms()[i]);
                } else {
                    assert(rooms[i] == right.leaf_rooms()[i - left.leaf_rooms().len()]);
                }
            }
        },
    }
}

} // verus!
