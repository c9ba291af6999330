use vstd::prelude::*;

verus! {

/// A framed box of text lines with an optional title.
pub struct Panel {
    pub x: u16,
    pub y: u16,
    pub w: u16,
    pub h: u16,
    pub title: Option<String>,
    pub content: Vec<String>,
}

impl Panel {
    /// The lines of the panel, first line first.
    pub open spec fn lines(&self) -> Seq<String> {
        self.content@
    }

    /// How many lines fit between the top and the bottom of the frame.
    pub open spec fn rows_inside(&self) -> int {
        if self.h >= 2 {
            self.h - 2
        } else {
            0
        }
    }

    /// How many characters fit between the sides of the frame.
    pub open spec fn columns_inside(&self) -> int {
        if self.w >= 2 {
            self.w - 2
        } else {
            0
        }
    }

    /// An empty panel without a title.
    pub fn new(x: u16, y: u16, w: u16, h: u16) -> (panel: Panel)
        ensures
            panel.x == x,
            panel.y == y,
            panel.w == w,
            panel.h == h,
            panel.title.is_none(),
            panel.lines() == Seq::<String>::empty(),
    {
        Panel { x, y, w, h, title: None, content: Vec::new() }
    }

    pub fn set_title(&mut self, title: String)
        ensures
            final(self).title == Some(title),
            final(self).lines() == old(self).lines(),
            final(self).x == old(self).x,
            final(self).y == old(self).y,
            final(self).w == old(self).w,
            final(self).h == old(self).h,
    {
        self.title = Some(title);
    }

    /// Replaces all lines.
    pub fn set_content(&mut self, content: Vec<String>)
        ensures
            final(self).lines() == content@,
            final(self).title == old(self).title,
            final(self).x == old(self).x,
            final(self).y == old(self).y,
            final(self).w == old(self).w,
            final(self).h == old(self).h,
    {
        self.content = content;
    }

    /// Appends one line.
    pub fn add_content(&mut self, content: String)
        ensures
            final(self).lines() == old(self).lines().push(content),
            final(self).title == old(self).title,
            final(self).x == old(self).x,
            final(self).y == old(self).y,
            final(self).w == old(self).w,
            final(self).h == old(self).h,
    {
        self.content.push(content);
    }

    /// How many of the lines are drawn: those that fit inside the frame.
    pub fn visible_rows(&self) -> (n: usize)
        ensures
            n == if self.lines().len() <= self.rows_inside() {
                self.lines().len() as int
            } else {
                self.rows_inside()
            },
    {
        let inside: usize = if self.h >= 2 {
            (self.h - 2) as usize
        } else {
            0
        };
        if self.content.len() <= inside {
            self.content.len()
        } else {
            inside
        }
    }

    /// How many characters of a line are drawn at most.
    pub fn visible_columns(&self) -> (n: usize)
        ensures
            n == self.columns_inside(),
    {
        if self.w >= 2 {
            (self.w - 2) as usize
        } else {
            0
        }
    }
}

} // verus!
