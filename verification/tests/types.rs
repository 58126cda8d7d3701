use onagre::config::{CustomMode, OnagreSettings};
use onagre::mode::Mode;
use onagre::style::color::OnagreColor;
use onagre::style::layout::Length;
use onagre::style::search::{ContainerStyle, SearchBarStyles, SearchContainerStyles, TextInputStyle};

#[test]
fn mode_to_string_gives_the_label() {
    assert_eq!(Mode::Drun.to_string(), "Drun");
    assert_eq!(Mode::Custom("files".to_string()).to_string(), "files");
    assert_eq!(Mode::Custom(String::new()).to_string(), "");
}

#[test]
fn modes_compare_by_kind_and_name() {
    assert_eq!(Mode::Drun, Mode::Drun);
    assert_eq!(Mode::Custom("a".to_string()), Mode::Custom("a".to_string()));
    assert_ne!(Mode::Custom("a".to_string()), Mode::Custom("b".to_string()));
    assert_ne!(Mode::Drun, Mode::Custom("Drun".to_string()));
    assert_eq!(Mode::Custom("a".to_string()).clone(), Mode::Custom("a".to_string()));
}

#[test]
fn settings_find_the_first_mode_of_a_name() {
    let settings = OnagreSettings {
        modes: vec![
            CustomMode { name: "files".to_string(), source: "fd".to_string(), target: "open %".to_string() },
            CustomMode { name: "hosts".to_string(), source: "hosts".to_string(), target: "ssh %".to_string() },
            CustomMode { name: "files".to_string(), source: "find".to_string(), target: "cat %".to_string() },
        ],
        exit_after_launch: false,
    };
    assert_eq!(settings.get("files"), Some(&settings.modes[0]));
    assert_eq!(settings.get("hosts"), Some(&settings.modes[1]));
    assert_eq!(settings.get("Files"), None);
    assert_eq!(settings.get(""), None);
}

#[test]
fn default_settings_have_no_mode_and_exit_after_launch() {
    let settings = OnagreSettings::default();
    assert_eq!(settings.modes, Vec::<CustomMode>::new());
    assert!(settings.exit_after_launch);
    assert_eq!(settings.get("files"), None);
}

#[test]
fn named_colours() {
    assert_eq!(OnagreColor::white(), OnagreColor { r: 255, g: 255, b: 255, a: 255 });
    assert_eq!(OnagreColor::black(), OnagreColor { r: 0, g: 0, b: 0, a: 255 });
    assert_eq!(OnagreColor::red(), OnagreColor { r: 255, g: 0, b: 0, a: 255 });
    assert_eq!(OnagreColor::green(), OnagreColor { r: 0, g: 255, b: 0, a: 255 });
    assert_eq!(OnagreColor::blue(), OnagreColor { r: 0, g: 0, b: 255, a: 255 });
    assert_eq!(OnagreColor::rgb(1, 2, 3), OnagreColor { r: 1, g: 2, b: 3, a: 255 });
    assert_eq!(Length::fill(), Length::Fill);
}

#[test]
fn default_search_styles() {
    let styles = SearchContainerStyles::default();
    assert_eq!(
        styles,
        SearchContainerStyles {
            background: OnagreColor::red(),
            border_radius: 0,
            border_width: 0,
            text_color: OnagreColor::white(),
            border_color: OnagreColor::white(),
            width: Length::Fill,
            height: Length::Fill,
            bar: SearchBarStyles {
                border_radius: 0,
                border_width: 0,
                border_color: OnagreColor::green(),
                background: OnagreColor::white(),
                placeholder_color: OnagreColor::blue(),
                value_color: OnagreColor::black(),
                selection_color: OnagreColor::green(),
                text_width: Length::Fill,
            },
        }
    );
}

#[test]
fn container_style_takes_its_border_width_from_the_radius() {
    let mut styles = SearchContainerStyles::default();
    styles.border_radius = 4;
    styles.border_width = 9;
    styles.background = OnagreColor::rgb(1, 2, 3);
    assert_eq!(
        styles.style(),
        ContainerStyle {
            background: Some(OnagreColor::rgb(1, 2, 3)),
            border_radius: 4,
            border_width: 4,
            text_color: Some(OnagreColor::white()),
            border_color: OnagreColor::white(),
        }
    );
}

#[test]
fn input_line_looks_the_same_in_every_state() {
    let bar = SearchBarStyles {
        border_radius: 3,
        border_width: 2,
        border_color: OnagreColor::rgb(9, 9, 9),
        background: OnagreColor::rgb(7, 7, 7),
        placeholder_color: OnagreColor::blue(),
        value_color: OnagreColor::black(),
        selection_color: OnagreColor::green(),
        text_width: Length::Units(40),
    };
    let expected = TextInputStyle {
        background: OnagreColor::rgb(7, 7, 7),
        border_radius: 3,
        border_width: 2,
        border_color: OnagreColor::rgb(9, 9, 9),
    };
    assert_eq!(bar.active(), expected);
    assert_eq!(bar.focused(), expected);
    assert_eq!(bar.hovered(), expected);
    assert_eq!(bar.placeholder_color(), OnagreColor::blue());
    assert_eq!(bar.value_color(), OnagreColor::black());
    assert_eq!(bar.selection_color(), OnagreColor::green());
}
