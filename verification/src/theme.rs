//! The colour schemes the picker offers.
use vstd::prelude::*;

verus! {

/// A Catppuccin flavour.
#[derive(Clone, Copy, Debug, PartialEq, Eq, Structural)]
pub enum CatppuccinFlavor {
    Latte,
    Frappe,
    Macchiato,
    Mocha,
}

pub open spec fn flavor_name(f: CatppuccinFlavor) -> Seq<char> {
    match f {
        CatppuccinFlavor::Latte => "Latte"@,
        CatppuccinFlavor::Frappe => "Frappe"@,
        CatppuccinFlavor::Macchiato => "Macchiato"@,
        CatppuccinFlavor::Mocha => "Mocha"@,
    }
}

impl CatppuccinFlavor {
    /// Every flavour, lightest first, in the order the theme popup lists them.
    pub fn all() -> (r: Vec<CatppuccinFlavor>)
        ensures
            r@ == seq![
                CatppuccinFlavor::Latte,
                CatppuccinFlavor::Frappe,
                CatppuccinFlavor::Macchiato,
                CatppuccinFlavor::Mocha,
            ],
    {
        let mut r = Vec::new();
        r.push(CatppuccinFlavor::Latte);
        r.push(CatppuccinFlavor::Frappe);
        r.push(CatppuccinFlavor::Macchiato);
        r.push(CatppuccinFlavor::Mocha);
        assert(r@ =~= seq![
            CatppuccinFlavor::Latte,
            CatppuccinFlavor::Frappe,
            CatppuccinFlavor::Macchiato,
            CatppuccinFlavor::Mocha,
        ]);
        r
    }

    /// The flavour's name, as the theme popup and the settings store it.
    pub fn name(self) -> (r: &'static str)
        ensures
            r@ == flavor_name(self),
    {
        match self {
            CatppuccinFlavor::Latte => "Latte",
            CatppuccinFlavor::Frappe => "Frappe",
            CatppuccinFlavor::Macchiato => "Macchiato",
            CatppuccinFlavor::Mocha => "Mocha",
        }
    }

    /// The colours of this flavour.
    pub fn theme(self) -> (r: Theme)
        ensures
            r == flavor_theme(self),
    {
        match self {
            CatppuccinFlavor::Latte => Theme::latte(),
            CatppuccinFlavor::Frappe => Theme::frappe(),
            CatppuccinFlavor::Macchiato => Theme::macchiato(),
            CatppuccinFlavor::Mocha => Theme::mocha(),
        }
    }
}

/// A terminal colour: a 24-bit one, or the terminal's own dark grey.
#[derive(Clone, Copy, Debug, PartialEq, Eq, Structural)]
pub enum Color {
    Rgb(u8, u8, u8),
    DarkGray,
}

/// The colour of each part of the screen.
#[derive(Clone, Copy, Debug, PartialEq, Eq, Structural)]
pub struct Theme {
    pub focus_border: Color,
    pub unfocus_border: Color,
    pub tab_active_fg: Color,
    pub tab_inactive_fg: Color,
    pub tag_bg: Color,
    pub tag_fg: Color,
    pub tag_selected_bg: Color,
    pub highlight_bg: Color,
    pub highlight_fg: Color,
    pub match_highlight_fg: Color,
    pub section_fg: Color,
    pub favorite_fg: Color,
    pub hint_fg: Color,
    pub popup_border: Color,
    pub create_fg: Color,
    pub scrollbar_fg: Color,
    pub header_bg: Color,
    pub header_fg: Color,
    pub help_keys_fg: Color,
    pub help_name_fg: Color,
    pub help_desc_fg: Color,
    pub help_search_border: Color,
    pub tag_popup_border: Color,
    pub input_text: Color,
}

/// The Mocha colours.
pub open spec fn mocha_theme() -> Theme {
    Theme {
        focus_border: Color::Rgb(203, 166, 247),
        unfocus_border: Color::DarkGray,
        tab_active_fg: Color::Rgb(203, 166, 247),
        tab_inactive_fg: Color::Rgb(166, 173, 200),
        tag_bg: Color::Rgb(49, 50, 68),
        tag_fg: Color::Rgb(180, 185, 190),
        tag_selected_bg: Color::Rgb(100, 150, 100),
        highlight_bg: Color::Rgb(137, 180, 250),
        highlight_fg: Color::Rgb(30, 30, 46),
        match_highlight_fg: Color::Rgb(249, 226, 175),
        section_fg: Color::Rgb(137, 180, 250),
        favorite_fg: Color::Rgb(249, 226, 175),
        hint_fg: Color::DarkGray,
        popup_border: Color::Rgb(203, 166, 247),
        create_fg: Color::Rgb(166, 227, 161),
        scrollbar_fg: Color::DarkGray,
        header_bg: Color::Rgb(30, 30, 46),
        header_fg: Color::Rgb(137, 180, 250),
        help_keys_fg: Color::Rgb(249, 226, 175),
        help_name_fg: Color::Rgb(205, 214, 244),
        help_desc_fg: Color::DarkGray,
        help_search_border: Color::Rgb(116, 199, 236),
        tag_popup_border: Color::Rgb(249, 226, 175),
        input_text: Color::Rgb(205, 214, 244),
    }
}

/// The Macchiato colours.
pub open spec fn macchiato_theme() -> Theme {
    Theme {
        focus_border: Color::Rgb(198, 160, 245),
        unfocus_border: Color::DarkGray,
        tab_active_fg: Color::Rgb(198, 160, 245),
        tab_inactive_fg: Color::Rgb(166, 173, 199),
        tag_bg: Color::Rgb(54, 58, 79),
        tag_fg: Color::Rgb(175, 180, 185),
        tag_selected_bg: Color::Rgb(95, 140, 95),
        highlight_bg: Color::Rgb(138, 173, 244),
        highlight_fg: Color::Rgb(36, 39, 58),
        match_highlight_fg: Color::Rgb(238, 212, 159),
        section_fg: Color::Rgb(138, 173, 244),
        favorite_fg: Color::Rgb(238, 212, 159),
        hint_fg: Color::DarkGray,
        popup_border: Color::Rgb(198, 160, 245),
        create_fg: Color::Rgb(166, 218, 149),
        scrollbar_fg: Color::DarkGray,
        header_bg: Color::Rgb(36, 39, 58),
        header_fg: Color::Rgb(138, 173, 244),
        help_keys_fg: Color::Rgb(238, 212, 159),
        help_name_fg: Color::Rgb(202, 211, 245),
        help_desc_fg: Color::DarkGray,
        help_search_border: Color::Rgb(113, 188, 226),
        tag_popup_border: Color::Rgb(238, 212, 159),
        input_text: Color::Rgb(202, 211, 245),
    }
}

/// The Frappe colours.
pub open spec fn frappe_theme() -> Theme {
    Theme {
        focus_border: Color::Rgb(202, 158, 230),
        unfocus_border: Color::DarkGray,
        tab_active_fg: Color::Rgb(202, 158, 230),
        tab_inactive_fg: Color::Rgb(165, 172, 199),
        tag_bg: Color::Rgb(65, 69, 89),
        tag_fg: Color::Rgb(170, 175, 180),
        tag_selected_bg: Color::Rgb(90, 130, 90),
        highlight_bg: Color::Rgb(140, 170, 238),
        highlight_fg: Color::Rgb(48, 52, 70),
        match_highlight_fg: Color::Rgb(229, 200, 144),
        section_fg: Color::Rgb(140, 170, 238),
        favorite_fg: Color::Rgb(229, 200, 144),
        hint_fg: Color::DarkGray,
        popup_border: Color::Rgb(202, 158, 230),
        create_fg: Color::Rgb(166, 209, 137),
        scrollbar_fg: Color::DarkGray,
        header_bg: Color::Rgb(48, 52, 70),
        header_fg: Color::Rgb(140, 170, 238),
        help_keys_fg: Color::Rgb(229, 200, 144),
        help_name_fg: Color::Rgb(198, 208, 245),
        help_desc_fg: Color::DarkGray,
        help_search_border: Color::Rgb(108, 178, 220),
        tag_popup_border: Color::Rgb(229, 200, 144),
        input_text: Color::Rgb(198, 208, 245),
    }
}

/// The Latte colours.
pub open spec fn latte_theme() -> Theme {
    Theme {
        focus_border: Color::Rgb(136, 57, 239),
        unfocus_border: Color::Rgb(156, 160, 176),
        tab_active_fg: Color::Rgb(136, 57, 239),
        tab_inactive_fg: Color::Rgb(100, 106, 130),
        tag_bg: Color::Rgb(204, 208, 218),
        tag_fg: Color::Rgb(76, 79, 105),
        tag_selected_bg: Color::Rgb(140, 180, 140),
        highlight_bg: Color::Rgb(30, 102, 245),
        highlight_fg: Color::Rgb(239, 241, 245),
        match_highlight_fg: Color::Rgb(223, 142, 29),
        section_fg: Color::Rgb(30, 102, 245),
        favorite_fg: Color::Rgb(223, 142, 29),
        hint_fg: Color::Rgb(156, 160, 176),
        popup_border: Color::Rgb(136, 57, 239),
        create_fg: Color::Rgb(64, 160, 43),
        scrollbar_fg: Color::Rgb(156, 160, 176),
        header_bg: Color::Rgb(239, 241, 245),
        header_fg: Color::Rgb(30, 102, 245),
        help_keys_fg: Color::Rgb(223, 142, 29),
        help_name_fg: Color::Rgb(76, 79, 105),
        help_desc_fg: Color::Rgb(156, 160, 176),
        help_search_border: Color::Rgb(29, 117, 183),
        tag_popup_border: Color::Rgb(223, 142, 29),
        input_text: Color::Rgb(76, 79, 105),
    }
}

pub open spec fn flavor_theme(f: CatppuccinFlavor) -> Theme {
    match f {
        CatppuccinFlavor::Latte => latte_theme(),
        CatppuccinFlavor::Frappe => frappe_theme(),
        CatppuccinFlavor::Macchiato => macchiato_theme(),
        CatppuccinFlavor::Mocha => mocha_theme(),
    }
}

/// The name a theme goes by, told by its focus colour; any colours that are
/// not one of the other three count as Latte.
pub open spec fn theme_name(t: Theme) -> Seq<char> {
    if t.focus_border == mocha_theme().focus_border {
        "Mocha"@
    } else if t.focus_border == macchiato_theme().focus_border {
        "Macchiato"@
    } else if t.focus_border == frappe_theme().focus_border {
        "Frappe"@
    } else {
        "Latte"@
    }
}

impl Theme {
    pub fn mocha() -> (r: Theme)
        ensures
            r == mocha_theme(),
    {
        Theme {
            focus_border: Color::Rgb(203, 166, 247),
            unfocus_border: Color::DarkGray,
            tab_active_fg: Color::Rgb(203, 166, 247),
            tab_inactive_fg: Color::Rgb(166, 173, 200),
            tag_bg: Color::Rgb(49, 50, 68),
            tag_fg: Color::Rgb(180, 185, 190),
            tag_selected_bg: Color::Rgb(100, 150, 100),
            highlight_bg: Color::Rgb(137, 180, 250),
            highlight_fg: Color::Rgb(30, 30, 46),
            match_highlight_fg: Color::Rgb(249, 226, 175),
            section_fg: Color::Rgb(137, 180, 250),
            favorite_fg: Color::Rgb(249, 226, 175),
            hint_fg: Color::DarkGray,
            popup_border: Color::Rgb(203, 166, 247),
            create_fg: Color::Rgb(166, 227, 161),
            scrollbar_fg: Color::DarkGray,
            header_bg: Color::Rgb(30, 30, 46),
            header_fg: Color::Rgb(137, 180, 250),
            help_keys_fg: Color::Rgb(249, 226, 175),
            help_name_fg: Color::Rgb(205, 214, 244),
            help_desc_fg: Color::DarkGray,
            help_search_border: Color::Rgb(116, 199, 236),
            tag_popup_border: Color::Rgb(249, 226, 175),
            input_text: Color::Rgb(205, 214, 244),
        }
    }

    pub fn macchiato() -> (r: Theme)
        ensures
            r == macchiato_theme(),
    {
        Theme {
            focus_border: Color::Rgb(198, 160, 245),
            unfocus_border: Color::DarkGray,
            tab_active_fg: Color::Rgb(198, 160, 245),
            tab_inactive_fg: Color::Rgb(166, 173, 199),
            tag_bg: Color::Rgb(54, 58, 79),
            tag_fg: Color::Rgb(175, 180, 185),
            tag_selected_bg: Color::Rgb(95, 140, 95),
            highlight_bg: Color::Rgb(138, 173, 244),
            highlight_fg: Color::Rgb(36, 39, 58),
            match_highlight_fg: Color::Rgb(238, 212, 159),
            section_fg: Color::Rgb(138, 173, 244),
            favorite_fg: Color::Rgb(238, 212, 159),
            hint_fg: Color::DarkGray,
            popup_border: Color::Rgb(198, 160, 245),
            create_fg: Color::Rgb(166, 218, 149),
            scrollbar_fg: Color::DarkGray,
            header_bg: Color::Rgb(36, 39, 58),
            header_fg: Color::Rgb(138, 173, 244),
            help_keys_fg: Color::Rgb(238, 212, 159),
            help_name_fg: Color::Rgb(202, 211, 245),
            help_desc_fg: Color::DarkGray,
            help_search_border: Color::Rgb(113, 188, 226),
            tag_popup_border: Color::Rgb(238, 212, 159),
            input_text: Color::Rgb(202, 211, 245),
        }
    }

    pub fn frappe() -> (r: Theme)
        ensures
            r == frappe_theme(),
    {
        Theme {
            focus_border: Color::Rgb(202, 158, 230),
            unfocus_border: Color::DarkGray,
            tab_active_fg: Color::Rgb(202, 158, 230),
            tab_inactive_fg: Color::Rgb(165, 172, 199),
            tag_bg: Color::Rgb(65, 69, 89),
            tag_fg: Color::Rgb(170, 175, 180),
            tag_selected_bg: Color::Rgb(90, 130, 90),
            highlight_bg: Color::Rgb(140, 170, 238),
            highlight_fg: Color::Rgb(48, 52, 70),
            match_highlight_fg: Color::Rgb(229, 200, 144),
            section_fg: Color::Rgb(140, 170, 238),
            favorite_fg: Color::Rgb(229, 200, 144),
            hint_fg: Color::DarkGray,
            popup_border: Color::Rgb(202, 158, 230),
            create_fg: Color::Rgb(166, 209, 137),
            scrollbar_fg: Color::DarkGray,
            header_bg: Color::Rgb(48, 52, 70),
            header_fg: Color::Rgb(140, 170, 238),
            help_keys_fg: Color::Rgb(229, 200, 144),
            help_name_fg: Color::Rgb(198, 208, 245),
            help_desc_fg: Color::DarkGray,
            help_search_border: Color::Rgb(108, 178, 220),
            tag_popup_border: Color::Rgb(229, 200, 144),
            input_text: Color::Rgb(198, 208, 245),
        }
    }

    pub fn latte() -> (r: Theme)
        ensures
            r == latte_theme(),
    {
        Theme {
            focus_border: Color::Rgb(136, 57, 239),
            unfocus_border: Color::Rgb(156, 160, 176),
            tab_active_fg: Color::Rgb(136, 57, 239),
            tab_inactive_fg: Color::Rgb(100, 106, 130),
            tag_bg: Color::Rgb(204, 208, 218),
            tag_fg: Color::Rgb(76, 79, 105),
            tag_selected_bg: Color::Rgb(140, 180, 140),
            highlight_bg: Color::Rgb(30, 102, 245),
            highlight_fg: Color::Rgb(239, 241, 245),
            match_highlight_fg: Color::Rgb(223, 142, 29),
            section_fg: Color::Rgb(30, 102, 245),
            favorite_fg: Color::Rgb(223, 142, 29),
            hint_fg: Color::Rgb(156, 160, 176),
            popup_border: Color::Rgb(136, 57, 239),
            create_fg: Color::Rgb(64, 160, 43),
            scrollbar_fg: Color::Rgb(156, 160, 176),
            header_bg: Color::Rgb(239, 241, 245),
            header_fg: Color::Rgb(30, 102, 245),
            help_keys_fg: Color::Rgb(223, 142, 29),
            help_name_fg: Color::Rgb(76, 79, 105),
            help_desc_fg: Color::Rgb(156, 160, 176),
            help_search_border: Color::Rgb(29, 117, 183),
            tag_popup_border: Color::Rgb(223, 142, 29),
            input_text: Color::Rgb(76, 79, 105),
        }
    }

    /// The name of the flavour these colours belong to.
    pub fn name(&self) -> (r: &'static str)
        ensures
            r@ == theme_name(*self),
    {
        if self.focus_border == Theme::mocha().focus_border {
            "Mocha"
        } else if self.focus_border == Theme::macchiato().focus_border {
            "Macchiato"
        } else if self.focus_border == Theme::frappe().focus_border {
            "Frappe"
        } else {
            "Latte"
        }
    }
}

impl Default for Theme {
    /// Mocha, the theme the picker starts with.
    fn default() -> (r: Theme)
        ensures
            r == mocha_theme(),
    {
        Theme::mocha()
    }
}

/// A flavour's colours go by the flavour's own name.
pub proof fn law_theme_names_its_flavor(f: CatppuccinFlavor)
    ensures
        theme_name(flavor_theme(f)) == flavor_name(f),
{
}

/// The flavour at `i` in the order the theme popup lists them.
pub open spec fn flavor_at(i: int) -> CatppuccinFlavor {
    if i == 0 {
        CatppuccinFlavor::Latte
    } else if i == 1 {
        CatppuccinFlavor::Frappe
    } else if i == 2 {
        CatppuccinFlavor::Macchiato
    } else {
        CatppuccinFlavor::Mocha
    }
}

/// The row below `i`, wrapping from the last flavour to the first.
pub open spec fn row_below(i: int) -> int {
    if i < 3 {
        i + 1
    } else {
        0
    }
}

/// The row above `i`, wrapping from the first flavour to the last.
pub open spec fn row_above(i: int) -> int {
    if i > 0 {
        i - 1
    } else {
        3
    }
}

/// The first row whose flavour has this focus colour, if any.
pub open spec fn row_with_focus(c: Color) -> Option<int> {
    if flavor_theme(flavor_at(0)).focus_border == c {
        Some(0)
    } else if flavor_theme(flavor_at(1)).focus_border == c {
        Some(1)
    } else if flavor_theme(flavor_at(2)).focus_border == c {
        Some(2)
    } else if flavor_theme(flavor_at(3)).focus_border == c {
        Some(3)
    } else {
        None
    }
}

/// The theme stored under `name`; Mocha for any other name.
pub open spec fn theme_called(name: Seq<char>) -> Theme {
    if name == "Latte"@ {
        latte_theme()
    } else if name == "Frappe"@ {
        frappe_theme()
    } else if name == "Macchiato"@ {
        macchiato_theme()
    } else if name == "Mocha"@ {
        mocha_theme()
    } else {
        mocha_theme()
    }
}

impl Theme {
    /// The theme stored under `name`, as the settings keep it.
    pub fn from_name(name: &str) -> (r: Theme)
        ensures
            r == theme_called(name@),
    {
        if crate::text::str_eq(name, "Latte") {
            Theme::latte()
        } else if crate::text::str_eq(name, "Frappe") {
            Theme::frappe()
        } else if crate::text::str_eq(name, "Macchiato") {
            Theme::macchiato()
        } else if crate::text::str_eq(name, "Mocha") {
            Theme::mocha()
        } else {
            Theme::mocha()
        }
    }
}

/// The theme popup: the theme on show, the one to go back to, whether the
/// popup is open and which flavour it highlights.
pub struct ThemePicker {
    current: Theme,
    saved: Theme,
    open: bool,
    index: usize,
}

impl ThemePicker {
    #[verifier::type_invariant]
    spec fn row_in_range(self) -> bool {
        self.index < 4
    }

    pub closed spec fn current_spec(self) -> Theme {
        self.current
    }

    pub closed spec fn saved_spec(self) -> Theme {
        self.saved
    }

    pub closed spec fn open_spec(self) -> bool {
        self.open
    }

    pub closed spec fn index_spec(self) -> int {
        self.index as int
    }

    /// The popup closed, showing and keeping `current`, with the first row
    /// highlighted.
    pub fn new(current: Theme) -> (r: ThemePicker)
        ensures
            r.current_spec() == current,
            r.saved_spec() == current,
            !r.open_spec(),
            r.index_spec() == 0,
    {
        ThemePicker { current, saved: current, open: false, index: 0 }
    }

    /// The theme on show.
    pub fn current(&self) -> (r: Theme)
        ensures
            r == self.current_spec(),
    {
        self.current
    }

    /// Whether the popup is open.
    pub fn is_open(&self) -> (r: bool)
        ensures
            r == self.open_spec(),
    {
        self.open
    }

    /// The highlighted row.
    pub fn index(&self) -> (r: usize)
        ensures
            r == self.index_spec(),
            r < 4,
    {
        proof {
            use_type_invariant(self);
        }
        self.index
    }

    /// Shows `theme` as the one in use, with the popup closed.
    pub fn load(&mut self, theme: Theme)
        ensures
            final(self).current_spec() == theme,
            final(self).saved_spec() == theme,
            final(self).open_spec() == old(self).open_spec(),
            final(self).index_spec() == old(self).index_spec(),
    {
        proof {
            use_type_invariant(&*self);
        }
        self.current = theme;
        self.saved = theme;
    }

    /// Opens the popup on the row of the theme in use, remembering it to go
    /// back to.
    pub fn open_popup(&mut self)
        ensures
            final(self).open_spec(),
            final(self).current_spec() == old(self).current_spec(),
            final(self).saved_spec() == old(self).current_spec(),
            final(self).index_spec() == match row_with_focus(old(self).current_spec().focus_border) {
                Some(i) => i,
                None => old(self).index_spec(),
            },
    {
        proof {
            use_type_invariant(&*self);
        }
        self.saved = self.current;
        self.open = true;
        let all = CatppuccinFlavor::all();
        let mut i: usize = 0;
        while i < all.len()
            invariant
                i <= 4,
                all@ == seq![
                    CatppuccinFlavor::Latte,
                    CatppuccinFlavor::Frappe,
                    CatppuccinFlavor::Macchiato,
                    CatppuccinFlavor::Mocha,
                ],
                forall|j: int| 0 <= j < i ==> flavor_theme(flavor_at(j)).focus_border != self.current.focus_border,
                self.index < 4,
                self.index == old(self).index,
                self.current == old(self).current,
                self.saved == old(self).current,
                self.open,
            decreases 4 - i,
        {
            let t = all[i].theme();
            assert(all@[i as int] == flavor_at(i as int));
            if t.focus_border == self.current.focus_border {
                self.index = i;
                return;
            }
            i += 1;
        }
    }

    /// Goes back to the theme in use before the popup opened, and closes it.
    pub fn close_popup(&mut self)
        ensures
            !final(self).open_spec(),
            final(self).current_spec() == old(self).saved_spec(),
            final(self).saved_spec() == old(self).saved_spec(),
            final(self).index_spec() == old(self).index_spec(),
    {
        proof {
            use_type_invariant(&*self);
        }
        self.current = self.saved;
        self.open = false;
    }

    /// Keeps the theme on show and closes the popup; gives the name to store
    /// it under.
    pub fn apply_and_close(&mut self) -> (r: &'static str)
        ensures
            r@ == theme_name(old(self).current_spec()),
            !final(self).open_spec(),
            final(self).current_spec() == old(self).current_spec(),
            final(self).saved_spec() == old(self).current_spec(),
            final(self).index_spec() == old(self).index_spec(),
    {
        proof {
            use_type_invariant(&*self);
        }
        self.open = false;
        self.saved = self.current;
        self.current.name()
    }

    /// Highlights and shows the flavour above, wrapping to the last.
    pub fn navigate_up(&mut self)
        ensures
            final(self).index_spec() == row_above(old(self).index_spec()),
            final(self).current_spec() == flavor_theme(flavor_at(final(self).index_spec())),
            final(self).saved_spec() == old(self).saved_spec(),
            final(self).open_spec() == old(self).open_spec(),
    {
        proof {
            use_type_invariant(&*self);
        }
        let all = CatppuccinFlavor::all();
        if self.index > 0 {
            self.index = self.index - 1;
        } else {
            self.index = all.len() - 1;
        }
        assert(all@[self.index as int] == flavor_at(self.index as int));
        self.current = all[self.index].theme();
    }

    /// Highlights and shows the flavour below, wrapping to the first.
    pub fn navigate_down(&mut self)
        ensures
            final(self).index_spec() == row_below(old(self).index_spec()),
            final(self).current_spec() == flavor_theme(flavor_at(final(self).index_spec())),
            final(self).saved_spec() == old(self).saved_spec(),
            final(self).open_spec() == old(self).open_spec(),
    {
        proof {
            use_type_invariant(&*self);
        }
        let all = CatppuccinFlavor::all();
        let max = all.len() - 1;
        if self.index < max {
            self.index = self.index + 1;
        } else {
            self.index = 0;
        }
        assert(all@[self.index as int] == flavor_at(self.index as int));
        self.current = all[self.index].theme();
    }
}

/// Moving down then up in the theme popup, or up then down, comes back to
/// the same row.
pub proof fn law_theme_rows_step_back(i: int)
    requires
        0 <= i < 4,
    ensures
        row_above(row_below(i)) == i,
        row_below(row_above(i)) == i,
{
}

} // verus!
