//! The colour themes a front end can offer, by name and brightness.

use vstd::prelude::*;

verus! {

#[derive(Debug, Clone, Copy, PartialEq, Eq, Structural)]
pub enum ThemeType {
    RetroNeon,
    TokyoNight,
    Catppuccin,
    Gruvbox,
    Kanagawa,
    SolarizedDark,
    Dracula,
    Nord,
    SolarizedLight,
    GruvboxLight,
    CatppuccinLatte,
    TokyoDay,
}

/// Every theme, dark ones first, in the order a menu lists them.
pub open spec fn theme_list() -> Seq<ThemeType> {
    seq![
        ThemeType::RetroNeon,
        ThemeType::TokyoNight,
        ThemeType::Catppuccin,
        ThemeType::Gruvbox,
        ThemeType::Kanagawa,
        ThemeType::SolarizedDark,
        ThemeType::Dracula,
        ThemeType::Nord,
        ThemeType::SolarizedLight,
        ThemeType::GruvboxLight,
        ThemeType::CatppuccinLatte,
        ThemeType::TokyoDay,
    ]
}

impl ThemeType {
    /// The name shown to the user.
    pub open spec fn spec_name(self) -> Seq<char> {
        match self {
            ThemeType::RetroNeon => "Retro Neon"@,
            ThemeType::TokyoNight => "Tokyo Night"@,
            ThemeType::Catppuccin => "Catppuccin Mocha"@,
            ThemeType::Gruvbox => "Gruvbox Dark"@,
            ThemeType::Kanagawa => "Kanagawa"@,
            ThemeType::SolarizedDark => "Solarized Dark"@,
            ThemeType::Dracula => "Dracula"@,
            ThemeType::Nord => "Nord"@,
            ThemeType::SolarizedLight => "Solarized Light"@,
            ThemeType::GruvboxLight => "Gruvbox Light"@,
            ThemeType::CatppuccinLatte => "Catppuccin Latte"@,
            ThemeType::TokyoDay => "Tokyo Day"@,
        }
    }

    /// Whether the theme draws light text on a dark background.
    pub open spec fn spec_is_dark(self) -> bool {
        !(self is SolarizedLight || self is GruvboxLight || self is CatppuccinLatte || self is TokyoDay)
    }

    /// Every theme exactly once.
    pub fn all_themes() -> (r: Vec<ThemeType>)
        ensures
            r@ == theme_list(),
            forall|t: ThemeType| #[trigger] r@.contains(t),
            r@.no_duplicates(),
    {
        let r = vec![
            ThemeType::RetroNeon,
            ThemeType::TokyoNight,
            ThemeType::Catppuccin,
            ThemeType::Gruvbox,
            ThemeType::Kanagawa,
            ThemeType::SolarizedDark,
            ThemeType::Dracula,
            ThemeType::Nord,
            ThemeType::SolarizedLight,
            ThemeType::GruvboxLight,
            ThemeType::CatppuccinLatte,
            ThemeType::TokyoDay,
        ];
        assert(r@ =~= theme_list());
        assert forall|t: ThemeType| #[trigger] r@.contains(t) by {
            let k: int = match t {
                ThemeType::RetroNeon => 0,
                ThemeType::TokyoNight => 1,
                ThemeType::Catppuccin => 2,
                ThemeType::Gruvbox => 3,
                ThemeType::Kanagawa => 4,
                ThemeType::SolarizedDark => 5,
                ThemeType::Dracula => 6,
                ThemeType::Nord => 7,
                ThemeType::SolarizedLight => 8,
                ThemeType::GruvboxLight => 9,
                ThemeType::CatppuccinLatte => 10,
                ThemeType::TokyoDay => 11,
            };
            assert(r@[k] == t);
        }
        r
    }

    pub fn name(&self) -> (r: &str)
        ensures
            r@ == self.spec_name(),
    {
        match self {
            ThemeType::RetroNeon => "Retro Neon",
            ThemeType::TokyoNight => "Tokyo Night",
            ThemeType::Catppuccin => "Catppuccin Mocha",
            ThemeType::Gruvbox => "Gruvbox Dark",
            ThemeType::Kanagawa => "Kanagawa",
            ThemeType::SolarizedDark => "Solarized Dark",
            ThemeType::Dracula => "Dracula",
            ThemeType::Nord => "Nord",
            ThemeType::SolarizedLight => "Solarized Light",
            ThemeType::GruvboxLight => "Gruvbox Light",
            ThemeType::CatppuccinLatte => "Catppuccin Latte",
            ThemeType::TokyoDay => "Tokyo Day",
        }
    }

    pub fn is_dark(&self) -> (r: bool)
        ensures
            r == self.spec_is_dark(),
    {
        match self {
            ThemeType::SolarizedLight
            | ThemeType::GruvboxLight
            | ThemeType::CatppuccinLatte
            | ThemeType::TokyoDay => false,
            _ => true,
        }
    }
}

} // verus!
