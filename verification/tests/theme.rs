use ctrlr::theme::{CatppuccinFlavor, Color, Theme, ThemePicker};

#[test]
fn every_flavor_theme_goes_by_its_name() {
    for f in CatppuccinFlavor::all() {
        assert_eq!(f.theme().name(), f.name());
    }
}

#[test]
fn default_theme_is_mocha() {
    let t = Theme::default();
    assert_eq!(t.name(), "Mocha");
    assert_eq!(t.focus_border, Color::Rgb(203, 166, 247));
    assert_eq!(Theme::latte().unfocus_border, Color::Rgb(156, 160, 176));
    assert_eq!(Theme::frappe().unfocus_border, Color::DarkGray);
}

#[test]
fn theme_names_read_back() {
    assert_eq!(Theme::from_name("Latte"), Theme::latte());
    assert_eq!(Theme::from_name("Frappe"), Theme::frappe());
    assert_eq!(Theme::from_name("Macchiato"), Theme::macchiato());
    assert_eq!(Theme::from_name("Mocha"), Theme::mocha());
    assert_eq!(Theme::from_name("Solarized"), Theme::mocha());
}

#[test]
fn theme_popup_opens_on_the_theme_in_use() {
    let mut p = ThemePicker::new(Theme::frappe());
    p.open_popup();
    assert!(p.is_open());
    assert_eq!(p.index(), 1);
}

#[test]
fn theme_popup_wraps_both_ways() {
    let mut p = ThemePicker::new(Theme::latte());
    p.open_popup();
    p.navigate_up();
    assert_eq!(p.index(), 3);
    assert_eq!(p.current().name(), "Mocha");
    p.navigate_down();
    assert_eq!(p.index(), 0);
    assert_eq!(p.current().name(), "Latte");
}

#[test]
fn closing_the_theme_popup_restores_the_theme() {
    let mut p = ThemePicker::new(Theme::mocha());
    p.open_popup();
    p.navigate_down();
    assert_eq!(p.current().name(), "Latte");
    p.close_popup();
    assert!(!p.is_open());
    assert_eq!(p.current(), Theme::mocha());
}

#[test]
fn applying_a_theme_keeps_it() {
    let mut p = ThemePicker::new(Theme::mocha());
    p.open_popup();
    p.navigate_up();
    assert_eq!(p.apply_and_close(), "Macchiato");
    p.open_popup();
    p.close_popup();
    assert_eq!(p.current(), Theme::macchiato());
}
