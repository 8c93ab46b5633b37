//! Geometry of the graphical widgets: rectangular areas, buttons, and the
//! window frame with its title bar and client area. Drawing lives outside
//! the verified surface; these types carry the layout arithmetic.

use vstd::prelude::*;

verus! {

/// A rectangular area with position and size.
#[derive(Debug, Clone, Copy, PartialEq, Eq, Structural)]
pub struct Area {
    pub x: i32,
    pub y: i32,
    pub width: u32,
    pub height: u32,
}

impl Area {
    pub fn new(x: i32, y: i32, width: u32, height: u32) -> (r: Self)
        ensures
            r == (Area { x, y, width, height }),
    {
        Area { x, y, width, height }
    }

    /// The area shrunk by `margin` on every side; the size saturates at
    /// zero.
    pub fn inner(&self, margin: u32) -> (r: Self)
        requires
            margin <= i32::MAX,
            self.x + margin <= i32::MAX,
            self.y + margin <= i32::MAX,
            margin * 2 <= u32::MAX,
        ensures
            r.x == self.x + margin,
            r.y == self.y + margin,
            r.width == (if self.width >= margin * 2 {
                (self.width - margin * 2) as u32
            } else {
                0u32
            }),
            r.height == (if self.height >= margin * 2 {
                (self.height - margin * 2) as u32
            } else {
                0u32
            }),
    {
        let m2 = margin * 2;
        Area {
            x: self.x + margin as i32,
            y: self.y + margin as i32,
            width: if self.width >= m2 {
                self.width - m2
            } else {
                0
            },
            height: if self.height >= m2 {
                self.height - m2
            } else {
                0
            },
        }
    }

    /// Whether the point lies inside the area.
    pub fn contains(&self, px: i32, py: i32) -> (r: bool)
        requires
            self.width <= i32::MAX,
            self.height <= i32::MAX,
            self.x + self.width <= i32::MAX,
            self.y + self.height <= i32::MAX,
        ensures
            r == (self.x <= px < self.x + self.width && self.y <= py < self.y + self.height),
    {
        px >= self.x && px < self.x + self.width as i32 && py >= self.y && py < self.y
            + self.height as i32
    }
}

/// The interaction states of a button.
#[derive(Debug, Clone, Copy, PartialEq, Eq, Structural)]
pub enum ButtonState {
    Normal,
    Hovered,
    Pressed,
    Disabled,
}

/// A push button: an area, a label, a state, and whether it is the
/// default button of its window.
#[derive(Debug, Clone)]
pub struct Button {
    pub area: Area,
    pub text: String,
    pub state: ButtonState,
    pub is_default: bool,
}

impl Button {
    pub fn new(x: i32, y: i32, width: u32, height: u32, text: &str) -> (r: Self)
        ensures
            r.area == (Area { x, y, width, height }),
            r.text@ == text@,
            r.state == ButtonState::Normal,
            !r.is_default,
    {
        Button {
            area: Area::new(x, y, width, height),
            text: text.to_owned(),
            state: ButtonState::Normal,
            is_default: false,
        }
    }

    /// The same button, marked as the window's default button.
    pub fn with_default(self) -> (r: Self)
        ensures
            r == (Button { is_default: true, ..self }),
    {
        Button { is_default: true, ..self }
    }
}

/// A window frame: an area, a title, and which title-bar buttons it shows.
#[derive(Debug, Clone)]
pub struct Win98WindowWidget {
    pub area: Area,
    pub title: String,
    pub active: bool,
    pub has_minimize: bool,
    pub has_maximize: bool,
    pub has_close: bool,
}

impl Win98WindowWidget {
    pub fn new(x: i32, y: i32, width: u32, height: u32, title: &str) -> (r: Self)
        ensures
            r.area == (Area { x, y, width, height }),
            r.title@ == title@,
            r.active && r.has_minimize && r.has_maximize && r.has_close,
    {
        Win98WindowWidget {
            area: Area::new(x, y, width, height),
            title: title.to_owned(),
            active: true,
            has_minimize: true,
            has_maximize: true,
            has_close: true,
        }
    }

    /// The title bar: inset three pixels from the top corners, eighteen
    /// pixels tall.
    pub fn title_bar_area(&self) -> (r: Area)
        requires
            self.area.x + 3 <= i32::MAX,
            self.area.y + 3 <= i32::MAX,
            self.area.width >= 6,
        ensures
            r == (Area {
                x: (self.area.x + 3) as i32,
                y: (self.area.y + 3) as i32,
                width: (self.area.width - 6) as u32,
                height: 18u32,
            }),
    {
        Area::new(self.area.x + 3, self.area.y + 3, self.area.width - 6, 18)
    }

    /// The client area below the title bar.
    pub fn client_area(&self) -> (r: Area)
        requires
            self.area.x + 4 <= i32::MAX,
            self.area.y + 25 <= i32::MAX,
            self.area.width >= 8,
            self.area.height >= 29,
        ensures
            r == (Area {
                x: (self.area.x + 4) as i32,
                y: (self.area.y + 25) as i32,
                width: (self.area.width - 8) as u32,
                height: (self.area.height - 29) as u32,
            }),
    {
        Area::new(self.area.x + 4, self.area.y + 25, self.area.width - 8, self.area.height - 29)
    }
}

} // verus!
