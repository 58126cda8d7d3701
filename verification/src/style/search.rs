//! The look of the search area: the container and the input line in it.

use vstd::prelude::*;
use crate::style::color::OnagreColor;
use crate::style::layout::Length;

verus! {

/// The look of the container around the input line.
#[derive(Clone, Copy, Debug, PartialEq, Eq, Structural)]
pub struct SearchContainerStyles {
    pub background: OnagreColor,
    pub border_radius: u16,
    pub border_width: u16,
    pub text_color: OnagreColor,
    pub border_color: OnagreColor,
    pub width: Length,
    pub height: Length,
    pub bar: SearchBarStyles,
}

/// The look of the input line.
#[derive(Clone, Copy, Debug, PartialEq, Eq, Structural)]
pub struct SearchBarStyles {
    pub border_radius: u16,
    pub border_width: u16,
    pub border_color: OnagreColor,
    pub background: OnagreColor,
    pub placeholder_color: OnagreColor,
    pub value_color: OnagreColor,
    pub selection_color: OnagreColor,
    pub text_width: Length,
}

/// How a container is drawn.
#[derive(Clone, Copy, Debug, PartialEq, Eq, Structural)]
pub struct ContainerStyle {
    pub background: Option<OnagreColor>,
    pub border_radius: u16,
    pub border_width: u16,
    pub text_color: Option<OnagreColor>,
    pub border_color: OnagreColor,
}

/// How an input line is drawn.
#[derive(Clone, Copy, Debug, PartialEq, Eq, Structural)]
pub struct TextInputStyle {
    pub background: OnagreColor,
    pub border_radius: u16,
    pub border_width: u16,
    pub border_color: OnagreColor,
}

/// The look of the search area where the theme says nothing of it.
pub open spec fn default_search_styles() -> SearchContainerStyles {
    SearchContainerStyles {
        border_radius: 0,
        border_width: 0,
        text_color: OnagreColor::rgb(255, 255, 255),
        border_color: OnagreColor::rgb(255, 255, 255),
        background: OnagreColor::rgb(255, 0, 0),
        height: Length::Fill,
        bar: SearchBarStyles {
            border_radius: 0,
            border_width: 0,
            border_color: OnagreColor::rgb(0, 255, 0),
            background: OnagreColor::rgb(255, 255, 255),
            placeholder_color: OnagreColor::rgb(0, 0, 255),
            value_color: OnagreColor::rgb(0, 0, 0),
            selection_color: OnagreColor::rgb(0, 255, 0),
            text_width: Length::Fill,
        },
        width: Length::Fill,
    }
}

impl Default for SearchContainerStyles {
    fn default() -> (styles: Self)
        ensures
            styles == default_search_styles(),
    {
        Self {
            border_radius: 0,
            border_width: 0,
            text_color: OnagreColor::white(),
            border_color: OnagreColor::white(),
            background: OnagreColor::red(),
            height: Length::fill(),
            bar: SearchBarStyles {
                border_radius: 0,
                border_width: 0,
                border_color: OnagreColor::green(),
                background: OnagreColor::white(),
                placeholder_color: OnagreColor::blue(),
                value_color: OnagreColor::black(),
                selection_color: OnagreColor::green(),
                text_width: Length::fill(),
            },
            width: Length::fill(),
        }
    }
}

impl SearchContainerStyles {
    /// How the container is drawn: filled with the background colour, text
    /// in the text colour, and a border in the border colour that is as wide
    /// as the corners are round.
    pub fn style(&self) -> (style: ContainerStyle)
        ensures
            style == (ContainerStyle {
                background: Some(self.background),
                border_radius: self.border_radius,
                border_width: self.border_radius,
                text_color: Some(self.text_color),
                border_color: self.border_color,
            }),
    {
        ContainerStyle {
            background: Some(self.background),
            border_radius: self.border_radius,
            border_width: self.border_radius,
            text_color: Some(self.text_color),
            border_color: self.border_color,
        }
    }
}

impl SearchBarStyles {
    /// How the input line is drawn, which is the same whether it is
    /// active, focused or hovered.
    pub open spec fn line_style(&self) -> TextInputStyle {
        TextInputStyle {
            background: self.background,
            border_radius: self.border_radius,
            border_width: self.border_width,
            border_color: self.border_color,
        }
    }

    pub fn active(&self) -> (style: TextInputStyle)
        ensures
            style == self.line_style(),
    {
        TextInputStyle {
            background: self.background,
            border_radius: self.border_radius,
            border_width: self.border_width,
            border_color: self.border_color,
        }
    }

    pub fn focused(&self) -> (style: TextInputStyle)
        ensures
            style == self.line_style(),
    {
        TextInputStyle {
            background: self.background,
            border_radius: self.border_radius,
            border_width: self.border_width,
            border_color: self.border_color,
        }
    }

    pub fn placeholder_color(&self) -> (color: OnagreColor)
        ensures
            color == self.placeholder_color,
    {
        self.placeholder_color
    }

    pub fn value_color(&self) -> (color: OnagreColor)
        ensures
            color == self.value_color,
    {
        self.value_color
    }

    pub fn selection_color(&self) -> (color: OnagreColor)
        ensures
            color == self.selection_color,
    {
        self.selection_color
    }

    pub fn hovered(&self) -> (style: TextInputStyle)
        ensures
            style == self.line_style(),
    {
        TextInputStyle {
            background: self.background,
            border_radius: self.border_radius,
            border_width: self.border_width,
            border_color: self.border_color,
        }
    }
}

} // verus!
