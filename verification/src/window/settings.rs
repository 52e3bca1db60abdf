use crate::math::Size;
use vstd::prelude::*;

verus! {

/// Settings of a window: its title, whether it can be resized or fills the
/// screen, and its size.
#[derive(Debug, Clone)]
pub struct Settings {
    pub title: String,
    pub resizable: bool,
    pub fullscreen: bool,
    pub size: Size,
}

impl Settings {
    /// Replaces the title with `title`, leaving every other setting as it was.
    pub fn set_title(&mut self, title: &str)
        ensures
            final(self).title@ == title@,
            final(self).resizable == old(self).resizable,
            final(self).fullscreen == old(self).fullscreen,
            final(self).size == old(self).size,
    {
        self.title = title.to_owned();
    }

    /// The title that new windows start with.
    pub open spec fn default_title() -> Seq<char> {
        seq!['N', 'o', 'v', 'a']
    }
}

impl PartialEq for Settings {
    fn eq(&self, other: &Settings) -> (equal: bool) {
        self.title == other.title && self.resizable == other.resizable && self.fullscreen == other.fullscreen
            && self.size == other.size
    }
}

impl vstd::std_specs::cmp::PartialEqSpecImpl for Settings {
    open spec fn obeys_eq_spec() -> bool {
        true
    }

    open spec fn eq_spec(&self, other: &Settings) -> bool {
        &&& self.title@ == other.title@
        &&& self.resizable == other.resizable
        &&& self.fullscreen == other.fullscreen
        &&& self.size == other.size
    }
}

impl Default for Settings {
    /// A resizable, windowed 640 by 360 window titled "Nova".
    fn default() -> (s: Settings)
        ensures
            s.title@ == Settings::default_title(),
            s.resizable,
            !s.fullscreen,
            s.size == (Size { width: 640, height: 360 }),
    {
        let title = "Nova";
        proof {
            reveal_strlit("Nova");
        }
        Settings { title: title.to_owned(), resizable: true, fullscreen: false, size: Size::new(640, 360) }
    }
}

} // verus!
