use vstd::prelude::*;

verus! {

/// A pop-up with a title and a body, shown or hidden.
pub struct Modal {
    pub title: String,
    pub body: String,
    pub visible: bool,
}

/// A pop-up as a value.
pub struct ModalView {
    pub title: Seq<char>,
    pub body: Seq<char>,
    pub visible: bool,
}

impl View for Modal {
    type V = ModalView;

    open spec fn view(&self) -> ModalView {
        ModalView { title: self.title@, body: self.body@, visible: self.visible }
    }
}

impl Modal {
    pub fn new(title: String, body: String) -> (m: Self)
        ensures
            m.title@ == title@,
            m.body@ == body@,
            !m.visible,
    {
        Self { title, body, visible: false }
    }

    pub fn show(&mut self, title: String, body: String)
        ensures
            final(self).title@ == title@,
            final(self).body@ == body@,
            final(self).visible,
    {
        self.title = title;
        self.body = body;
        self.visible = true;
    }

    pub fn close(&mut self)
        ensures
            final(self).title@ == old(self).title@,
            final(self).body@ == old(self).body@,
            !final(self).visible,
    {
        self.visible = false;
    }
}

/// The pop-up's area: `percent_x` by `percent_y` percent of the area at
/// (`x`, `y`) of size `width` by `height`, centred in it, as (x, y, width,
/// height).
pub open spec fn centered(x: int, y: int, width: int, height: int, percent_x: int, percent_y: int) -> (int, int, int, int) {
    let w = width * percent_x / 100;
    let h = height * percent_y / 100;
    (x + (width - w) / 2, y + (height - h) / 2, w, h)
}

pub fn centered_area(x: u16, y: u16, width: u16, height: u16, percent_x: u16, percent_y: u16) -> (r: (u16, u16, u16, u16))
    requires
        width * percent_x <= u16::MAX,
        height * percent_y <= u16::MAX,
        percent_x <= 100,
        percent_y <= 100,
        x + width <= u16::MAX,
        y + height <= u16::MAX,
    ensures
        (r.0 as int, r.1 as int, r.2 as int, r.3 as int) == centered(
            x as int,
            y as int,
            width as int,
            height as int,
            percent_x as int,
            percent_y as int,
        ),
{
    let w = width * percent_x / 100;
    let h = height * percent_y / 100;
    assert(w <= width) by (nonlinear_arith)
        requires
            w == width * percent_x / 100,
            percent_x <= 100,
    ;
    assert(h <= height) by (nonlinear_arith)
        requires
            h == height * percent_y / 100,
            percent_y <= 100,
    ;
    (x + (width - w) / 2, y + (height - h) / 2, w, h)
}

} // verus!
