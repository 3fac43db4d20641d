//! Colour palettes, the selected palette, and the colour of each kind of file.
use vstd::prelude::*;

use crate::text::{all_ascii, chars_of, lower_ascii, to_lowercase, trim, trim_string, unicode_lowercase};

verus! {

#[derive(Debug, Clone, Copy, PartialEq, Eq, Structural)]
pub enum PaletteId {
    GitHubDark,
    Dracula,
    Catppuccin,
    Nord,
    TokyoNight,
    Gruvbox,
    OneDark,
    Solarized,
}

/// Number of palettes.
pub const PALETTE_COUNT: usize = 8;

/// Position of each palette in the picker.
pub open spec fn palette_index(p: PaletteId) -> int {
    match p {
        PaletteId::GitHubDark => 0,
        PaletteId::Dracula => 1,
        PaletteId::Catppuccin => 2,
        PaletteId::Nord => 3,
        PaletteId::TokyoNight => 4,
        PaletteId::Gruvbox => 5,
        PaletteId::OneDark => 6,
        PaletteId::Solarized => 7,
    }
}

/// The palette at position `i` of the picker.
pub open spec fn palette_at(i: int) -> PaletteId {
    if i == 0 {
        PaletteId::GitHubDark
    } else if i == 1 {
        PaletteId::Dracula
    } else if i == 2 {
        PaletteId::Catppuccin
    } else if i == 3 {
        PaletteId::Nord
    } else if i == 4 {
        PaletteId::TokyoNight
    } else if i == 5 {
        PaletteId::Gruvbox
    } else if i == 6 {
        PaletteId::OneDark
    } else {
        PaletteId::Solarized
    }
}

pub open spec fn palette_name(p: PaletteId) -> Seq<char> {
    match p {
        PaletteId::GitHubDark => "GitHub Dark"@,
        PaletteId::Dracula => "Dracula"@,
        PaletteId::Catppuccin => "Catppuccin Mocha"@,
        PaletteId::Nord => "Nord"@,
        PaletteId::TokyoNight => "Tokyo Night"@,
        PaletteId::Gruvbox => "Gruvbox Dark"@,
        PaletteId::OneDark => "One Dark"@,
        PaletteId::Solarized => "Solarized Dark"@,
    }
}

pub open spec fn palette_key(p: PaletteId) -> Seq<char> {
    match p {
        PaletteId::GitHubDark => "github-dark"@,
        PaletteId::Dracula => "dracula"@,
        PaletteId::Catppuccin => "catppuccin"@,
        PaletteId::Nord => "nord"@,
        PaletteId::TokyoNight => "tokyo-night"@,
        PaletteId::Gruvbox => "gruvbox"@,
        PaletteId::OneDark => "one-dark"@,
        PaletteId::Solarized => "solarized"@,
    }
}

/// `p` answers to the lowercase name `s`: by its id or its display name.
pub open spec fn answers_to(p: PaletteId, s: Seq<char>) -> bool {
    palette_key(p) == s || lower_ascii(palette_name(p)) == s
}

/// The first palette in picker order that answers to `s`.
pub open spec fn first_answering(s: Seq<char>, from: int) -> Option<PaletteId>
    decreases 8 - from,
{
    if from < 0 || from >= 8 {
        None
    } else if answers_to(palette_at(from), s) {
        Some(palette_at(from))
    } else {
        first_answering(s, from + 1)
    }
}

impl PaletteId {
    /// The palettes in picker order.
    pub fn all() -> (r: Vec<PaletteId>)
        ensures
            r@.len() == 8,
            forall|i: int| 0 <= i < 8 ==> #[trigger] r@[i] == palette_at(i),
    {
        let mut v: Vec<PaletteId> = Vec::new();
        v.push(PaletteId::GitHubDark);
        v.push(PaletteId::Dracula);
        v.push(PaletteId::Catppuccin);
        v.push(PaletteId::Nord);
        v.push(PaletteId::TokyoNight);
        v.push(PaletteId::Gruvbox);
        v.push(PaletteId::OneDark);
        v.push(PaletteId::Solarized);
        v
    }

    pub fn name(self) -> (r: &'static str)
        ensures
            r@ == palette_name(self),
    {
        match self {
            PaletteId::GitHubDark => "GitHub Dark",
            PaletteId::Dracula => "Dracula",
            PaletteId::Catppuccin => "Catppuccin Mocha",
            PaletteId::Nord => "Nord",
            PaletteId::TokyoNight => "Tokyo Night",
            PaletteId::Gruvbox => "Gruvbox Dark",
            PaletteId::OneDark => "One Dark",
            PaletteId::Solarized => "Solarized Dark",
        }
    }

    pub fn id(self) -> (r: &'static str)
        ensures
            r@ == palette_key(self),
    {
        match self {
            PaletteId::GitHubDark => "github-dark",
            PaletteId::Dracula => "dracula",
            PaletteId::Catppuccin => "catppuccin",
            PaletteId::Nord => "nord",
            PaletteId::TokyoNight => "tokyo-night",
            PaletteId::Gruvbox => "gruvbox",
            PaletteId::OneDark => "one-dark",
            PaletteId::Solarized => "solarized",
        }
    }

    pub fn index(self) -> (r: usize)
        ensures
            r == palette_index(self),
    {
        match self {
            PaletteId::GitHubDark => 0,
            PaletteId::Dracula => 1,
            PaletteId::Catppuccin => 2,
            PaletteId::Nord => 3,
            PaletteId::TokyoNight => 4,
            PaletteId::Gruvbox => 5,
            PaletteId::OneDark => 6,
            PaletteId::Solarized => 7,
        }
    }

    /// The palette at position `i` of the picker, counting round.
    pub fn from_index(i: usize) -> (r: Self)
        ensures
            r == palette_at(i as int % 8),
    {
        let k = i % PALETTE_COUNT;
        if k == 0 {
            PaletteId::GitHubDark
        } else if k == 1 {
            PaletteId::Dracula
        } else if k == 2 {
            PaletteId::Catppuccin
        } else if k == 3 {
            PaletteId::Nord
        } else if k == 4 {
            PaletteId::TokyoNight
        } else if k == 5 {
            PaletteId::Gruvbox
        } else if k == 6 {
            PaletteId::OneDark
        } else {
            PaletteId::Solarized
        }
    }

    /// The palette named by `s` (trimmed, any case): by id or display name.
    pub fn from_id(s: &str) -> (r: Option<Self>)
        ensures
            r == first_answering(unicode_lowercase(trim(s@)), 0),
            all_ascii(trim(s@)) ==> r == first_answering(lower_ascii(trim(s@)), 0),
    {
        let t = trim_string(s);
        let lowered = to_lowercase(t.as_str());
        let want = chars_of(lowered.as_str());
        let all = PaletteId::all();
        let mut i: usize = 0;
        while i < all.len()
            invariant
                i <= 8,
                all@.len() == 8,
                forall|j: int| 0 <= j < 8 ==> #[trigger] all@[j] == palette_at(j),
                want@ == unicode_lowercase(trim(s@)),
                all_ascii(trim(s@)) ==> want@ == lower_ascii(trim(s@)),
                first_answering(want@, 0) == first_answering(want@, i as int),
            decreases 8 - i,
        {
            let p = all[i];
            let key = chars_of(p.id());
            let name = p.name();
            proof {
                lemma_names_ascii(p);
            }
            let lname = to_lowercase(name);
            let lchars = chars_of(lname.as_str());
            if crate::text::compare_chars(&key, &want) == 0 || crate::text::compare_chars(&lchars, &want) == 0 {
                return Some(p);
            }
            i = i + 1;
        }
        None
    }
}

proof fn lemma_names_ascii(p: PaletteId)
    ensures
        all_ascii(palette_name(p)),
{
    reveal_strlit("GitHub Dark");
    reveal_strlit("Dracula");
    reveal_strlit("Catppuccin Mocha");
    reveal_strlit("Nord");
    reveal_strlit("Tokyo Night");
    reveal_strlit("Gruvbox Dark");
    reveal_strlit("One Dark");
    reveal_strlit("Solarized Dark");
}

/// A 24-bit colour.
#[derive(Debug, Clone, Copy, PartialEq, Eq, Structural)]
pub struct Rgb {
    pub r: u8,
    pub g: u8,
    pub b: u8,
}

pub fn rgb(r: u8, g: u8, b: u8) -> (c: Rgb)
    ensures
        c == (Rgb { r, g, b }),
{
    Rgb { r, g, b }
}

#[derive(Debug, Clone, Copy)]
pub struct Palette {
    pub bg: Rgb,
    pub sidebar: Rgb,
    pub panel: Rgb,
    pub panel_elevated: Rgb,
    pub tab_bar: Rgb,
    pub tab_active: Rgb,
    pub tab_inactive: Rgb,
    pub tab_hover: Rgb,
    pub status: Rgb,
    pub status_fg: Rgb,
    pub titlebar: Rgb,
    pub fg: Rgb,
    pub fg_dim: Rgb,
    pub fg_muted: Rgb,
    pub accent: Rgb,
    pub accent_soft: Rgb,
    pub accent_glow: Rgb,
    pub border: Rgb,
    pub border_focus: Rgb,
    pub selection: Rgb,
    pub close: Rgb,
    pub close_muted: Rgb,
    pub git_mod: Rgb,
    pub git_add: Rgb,
    pub git_del: Rgb,
    pub folder: Rgb,
    pub file: Rgb,
    pub ft_ts: Rgb,
    pub ft_js: Rgb,
    pub ft_rs: Rgb,
    pub ft_go: Rgb,
    pub ft_py: Rgb,
    pub ft_md: Rgb,
    pub ft_json: Rgb,
    pub ft_yaml: Rgb,
    pub ft_toml: Rgb,
    pub ft_css: Rgb,
    pub ft_html: Rgb,
    pub ft_sh: Rgb,
    pub ft_docker: Rgb,
    pub ft_lock: Rgb,
    pub ft_test: Rgb,
    pub ft_config: Rgb,
}

pub open spec fn github_dark_colors() -> Palette {
    Palette {
        bg: Rgb { r: 13, g: 17, b: 23 },
        sidebar: Rgb { r: 22, g: 27, b: 34 },
        panel: Rgb { r: 1, g: 4, b: 9 },
        panel_elevated: Rgb { r: 13, g: 17, b: 23 },
        tab_bar: Rgb { r: 22, g: 27, b: 34 },
        tab_active: Rgb { r: 13, g: 17, b: 23 },
        tab_inactive: Rgb { r: 33, g: 38, b: 45 },
        tab_hover: Rgb { r: 48, g: 54, b: 61 },
        status: Rgb { r: 31, g: 111, b: 235 },
        status_fg: Rgb { r: 255, g: 255, b: 255 },
        titlebar: Rgb { r: 22, g: 27, b: 34 },
        fg: Rgb { r: 230, g: 237, b: 243 },
        fg_dim: Rgb { r: 139, g: 148, b: 158 },
        fg_muted: Rgb { r: 110, g: 118, b: 129 },
        accent: Rgb { r: 31, g: 111, b: 235 },
        accent_soft: Rgb { r: 26, g: 84, b: 184 },
        accent_glow: Rgb { r: 88, g: 166, b: 255 },
        border: Rgb { r: 48, g: 54, b: 61 },
        border_focus: Rgb { r: 88, g: 166, b: 255 },
        selection: Rgb { r: 26, g: 54, b: 93 },
        close: Rgb { r: 248, g: 81, b: 73 },
        close_muted: Rgb { r: 110, g: 118, b: 129 },
        git_mod: Rgb { r: 210, g: 153, b: 34 },
        git_add: Rgb { r: 63, g: 185, b: 80 },
        git_del: Rgb { r: 248, g: 81, b: 73 },
        folder: Rgb { r: 121, g: 192, b: 255 },
        file: Rgb { r: 201, g: 209, b: 217 },
        ft_ts: Rgb { r: 79, g: 193, b: 255 },
        ft_js: Rgb { r: 241, g: 224, b: 90 },
        ft_rs: Rgb { r: 222, g: 165, b: 132 },
        ft_go: Rgb { r: 0, g: 173, b: 216 },
        ft_py: Rgb { r: 255, g: 222, b: 120 },
        ft_md: Rgb { r: 130, g: 170, b: 255 },
        ft_json: Rgb { r: 203, g: 166, b: 247 },
        ft_yaml: Rgb { r: 247, g: 118, b: 142 },
        ft_toml: Rgb { r: 158, g: 206, b: 106 },
        ft_css: Rgb { r: 86, g: 156, b: 214 },
        ft_html: Rgb { r: 228, g: 135, b: 106 },
        ft_sh: Rgb { r: 125, g: 209, b: 143 },
        ft_docker: Rgb { r: 56, g: 152, b: 236 },
        ft_lock: Rgb { r: 110, g: 118, b: 129 },
        ft_test: Rgb { r: 63, g: 185, b: 80 },
        ft_config: Rgb { r: 210, g: 153, b: 34 },
    }
}

pub open spec fn dracula_colors() -> Palette {
    Palette {
        bg: Rgb { r: 40, g: 42, b: 54 },
        sidebar: Rgb { r: 33, g: 34, b: 44 },
        panel: Rgb { r: 30, g: 31, b: 41 },
        panel_elevated: Rgb { r: 40, g: 42, b: 54 },
        tab_bar: Rgb { r: 33, g: 34, b: 44 },
        tab_active: Rgb { r: 40, g: 42, b: 54 },
        tab_inactive: Rgb { r: 68, g: 71, b: 90 },
        tab_hover: Rgb { r: 98, g: 114, b: 164 },
        status: Rgb { r: 189, g: 147, b: 249 },
        status_fg: Rgb { r: 248, g: 248, b: 242 },
        titlebar: Rgb { r: 33, g: 34, b: 44 },
        fg: Rgb { r: 248, g: 248, b: 242 },
        fg_dim: Rgb { r: 98, g: 114, b: 164 },
        fg_muted: Rgb { r: 68, g: 71, b: 90 },
        accent: Rgb { r: 189, g: 147, b: 249 },
        accent_soft: Rgb { r: 98, g: 114, b: 164 },
        accent_glow: Rgb { r: 139, g: 233, b: 253 },
        border: Rgb { r: 68, g: 71, b: 90 },
        border_focus: Rgb { r: 189, g: 147, b: 249 },
        selection: Rgb { r: 68, g: 71, b: 90 },
        close: Rgb { r: 255, g: 85, b: 85 },
        close_muted: Rgb { r: 98, g: 114, b: 164 },
        git_mod: Rgb { r: 241, g: 250, b: 140 },
        git_add: Rgb { r: 80, g: 250, b: 123 },
        git_del: Rgb { r: 255, g: 85, b: 85 },
        folder: Rgb { r: 139, g: 233, b: 253 },
        file: Rgb { r: 248, g: 248, b: 242 },
        ft_ts: Rgb { r: 139, g: 233, b: 253 },
        ft_js: Rgb { r: 241, g: 250, b: 140 },
        ft_rs: Rgb { r: 255, g: 184, b: 108 },
        ft_go: Rgb { r: 139, g: 233, b: 253 },
        ft_py: Rgb { r: 241, g: 250, b: 140 },
        ft_md: Rgb { r: 189, g: 147, b: 249 },
        ft_json: Rgb { r: 255, g: 121, b: 198 },
        ft_yaml: Rgb { r: 255, g: 85, b: 85 },
        ft_toml: Rgb { r: 80, g: 250, b: 123 },
        ft_css: Rgb { r: 139, g: 233, b: 253 },
        ft_html: Rgb { r: 255, g: 184, b: 108 },
        ft_sh: Rgb { r: 80, g: 250, b: 123 },
        ft_docker: Rgb { r: 139, g: 233, b: 253 },
        ft_lock: Rgb { r: 98, g: 114, b: 164 },
        ft_test: Rgb { r: 80, g: 250, b: 123 },
        ft_config: Rgb { r: 241, g: 250, b: 140 },
    }
}

pub open spec fn catppuccin_colors() -> Palette {
    Palette {
        bg: Rgb { r: 30, g: 30, b: 46 },
        sidebar: Rgb { r: 24, g: 24, b: 37 },
        panel: Rgb { r: 17, g: 17, b: 27 },
        panel_elevated: Rgb { r: 30, g: 30, b: 46 },
        tab_bar: Rgb { r: 24, g: 24, b: 37 },
        tab_active: Rgb { r: 30, g: 30, b: 46 },
        tab_inactive: Rgb { r: 49, g: 50, b: 68 },
        tab_hover: Rgb { r: 69, g: 71, b: 90 },
        status: Rgb { r: 137, g: 180, b: 250 },
        status_fg: Rgb { r: 205, g: 214, b: 244 },
        titlebar: Rgb { r: 24, g: 24, b: 37 },
        fg: Rgb { r: 205, g: 214, b: 244 },
        fg_dim: Rgb { r: 127, g: 132, b: 156 },
        fg_muted: Rgb { r: 108, g: 112, b: 134 },
        accent: Rgb { r: 137, g: 180, b: 250 },
        accent_soft: Rgb { r: 69, g: 71, b: 90 },
        accent_glow: Rgb { r: 116, g: 199, b: 236 },
        border: Rgb { r: 49, g: 50, b: 68 },
        border_focus: Rgb { r: 137, g: 180, b: 250 },
        selection: Rgb { r: 69, g: 71, b: 90 },
        close: Rgb { r: 243, g: 139, b: 168 },
        close_muted: Rgb { r: 108, g: 112, b: 134 },
        git_mod: Rgb { r: 249, g: 226, b: 175 },
        git_add: Rgb { r: 166, g: 227, b: 161 },
        git_del: Rgb { r: 243, g: 139, b: 168 },
        folder: Rgb { r: 137, g: 180, b: 250 },
        file: Rgb { r: 205, g: 214, b: 244 },
        ft_ts: Rgb { r: 116, g: 199, b: 236 },
        ft_js: Rgb { r: 249, g: 226, b: 175 },
        ft_rs: Rgb { r: 250, g: 179, b: 135 },
        ft_go: Rgb { r: 148, g: 226, b: 213 },
        ft_py: Rgb { r: 249, g: 226, b: 175 },
        ft_md: Rgb { r: 180, g: 190, b: 254 },
        ft_json: Rgb { r: 203, g: 166, b: 247 },
        ft_yaml: Rgb { r: 243, g: 139, b: 168 },
        ft_toml: Rgb { r: 166, g: 227, b: 161 },
        ft_css: Rgb { r: 137, g: 180, b: 250 },
        ft_html: Rgb { r: 250, g: 179, b: 135 },
        ft_sh: Rgb { r: 166, g: 227, b: 161 },
        ft_docker: Rgb { r: 137, g: 180, b: 250 },
        ft_lock: Rgb { r: 108, g: 112, b: 134 },
        ft_test: Rgb { r: 166, g: 227, b: 161 },
        ft_config: Rgb { r: 249, g: 226, b: 175 },
    }
}

pub open spec fn nord_colors() -> Palette {
    Palette {
        bg: Rgb { r: 46, g: 52, b: 64 },
        sidebar: Rgb { r: 59, g: 66, b: 82 },
        panel: Rgb { r: 36, g: 41, b: 51 },
        panel_elevated: Rgb { r: 46, g: 52, b: 64 },
        tab_bar: Rgb { r: 59, g: 66, b: 82 },
        tab_active: Rgb { r: 46, g: 52, b: 64 },
        tab_inactive: Rgb { r: 67, g: 76, b: 94 },
        tab_hover: Rgb { r: 76, g: 86, b: 106 },
        status: Rgb { r: 136, g: 192, b: 208 },
        status_fg: Rgb { r: 236, g: 239, b: 244 },
        titlebar: Rgb { r: 59, g: 66, b: 82 },
        fg: Rgb { r: 236, g: 239, b: 244 },
        fg_dim: Rgb { r: 216, g: 222, b: 233 },
        fg_muted: Rgb { r: 129, g: 161, b: 193 },
        accent: Rgb { r: 136, g: 192, b: 208 },
        accent_soft: Rgb { r: 94, g: 129, b: 172 },
        accent_glow: Rgb { r: 143, g: 188, b: 187 },
        border: Rgb { r: 76, g: 86, b: 106 },
        border_focus: Rgb { r: 136, g: 192, b: 208 },
        selection: Rgb { r: 67, g: 76, b: 94 },
        close: Rgb { r: 191, g: 97, b: 106 },
        close_muted: Rgb { r: 129, g: 161, b: 193 },
        git_mod: Rgb { r: 235, g: 203, b: 139 },
        git_add: Rgb { r: 163, g: 190, b: 140 },
        git_del: Rgb { r: 191, g: 97, b: 106 },
        folder: Rgb { r: 129, g: 161, b: 193 },
        file: Rgb { r: 236, g: 239, b: 244 },
        ft_ts: Rgb { r: 136, g: 192, b: 208 },
        ft_js: Rgb { r: 235, g: 203, b: 139 },
        ft_rs: Rgb { r: 208, g: 135, b: 112 },
        ft_go: Rgb { r: 136, g: 192, b: 208 },
        ft_py: Rgb { r: 235, g: 203, b: 139 },
        ft_md: Rgb { r: 180, g: 142, b: 173 },
        ft_json: Rgb { r: 180, g: 142, b: 173 },
        ft_yaml: Rgb { r: 191, g: 97, b: 106 },
        ft_toml: Rgb { r: 163, g: 190, b: 140 },
        ft_css: Rgb { r: 129, g: 161, b: 193 },
        ft_html: Rgb { r: 208, g: 135, b: 112 },
        ft_sh: Rgb { r: 163, g: 190, b: 140 },
        ft_docker: Rgb { r: 136, g: 192, b: 208 },
        ft_lock: Rgb { r: 129, g: 161, b: 193 },
        ft_test: Rgb { r: 163, g: 190, b: 140 },
        ft_config: Rgb { r: 235, g: 203, b: 139 },
    }
}

pub open spec fn tokyo_night_colors() -> Palette {
    Palette {
        bg: Rgb { r: 26, g: 27, b: 38 },
        sidebar: Rgb { r: 22, g: 22, b: 30 },
        panel: Rgb { r: 16, g: 16, b: 24 },
        panel_elevated: Rgb { r: 26, g: 27, b: 38 },
        tab_bar: Rgb { r: 22, g: 22, b: 30 },
        tab_active: Rgb { r: 26, g: 27, b: 38 },
        tab_inactive: Rgb { r: 41, g: 42, b: 58 },
        tab_hover: Rgb { r: 54, g: 56, b: 76 },
        status: Rgb { r: 122, g: 162, b: 247 },
        status_fg: Rgb { r: 192, g: 202, b: 245 },
        titlebar: Rgb { r: 22, g: 22, b: 30 },
        fg: Rgb { r: 192, g: 202, b: 245 },
        fg_dim: Rgb { r: 86, g: 95, b: 137 },
        fg_muted: Rgb { r: 65, g: 72, b: 104 },
        accent: Rgb { r: 122, g: 162, b: 247 },
        accent_soft: Rgb { r: 41, g: 46, b: 86 },
        accent_glow: Rgb { r: 125, g: 207, b: 255 },
        border: Rgb { r: 41, g: 42, b: 58 },
        border_focus: Rgb { r: 122, g: 162, b: 247 },
        selection: Rgb { r: 41, g: 46, b: 86 },
        close: Rgb { r: 247, g: 118, b: 142 },
        close_muted: Rgb { r: 86, g: 95, b: 137 },
        git_mod: Rgb { r: 224, g: 175, b: 104 },
        git_add: Rgb { r: 158, g: 206, b: 106 },
        git_del: Rgb { r: 247, g: 118, b: 142 },
        folder: Rgb { r: 122, g: 162, b: 247 },
        file: Rgb { r: 192, g: 202, b: 245 },
        ft_ts: Rgb { r: 125, g: 207, b: 255 },
        ft_js: Rgb { r: 224, g: 175, b: 104 },
        ft_rs: Rgb { r: 255, g: 158, b: 100 },
        ft_go: Rgb { r: 125, g: 207, b: 255 },
        ft_py: Rgb { r: 224, g: 175, b: 104 },
        ft_md: Rgb { r: 187, g: 154, b: 247 },
        ft_json: Rgb { r: 187, g: 154, b: 247 },
        ft_yaml: Rgb { r: 247, g: 118, b: 142 },
        ft_toml: Rgb { r: 158, g: 206, b: 106 },
        ft_css: Rgb { r: 122, g: 162, b: 247 },
        ft_html: Rgb { r: 255, g: 158, b: 100 },
        ft_sh: Rgb { r: 158, g: 206, b: 106 },
        ft_docker: Rgb { r: 122, g: 162, b: 247 },
        ft_lock: Rgb { r: 86, g: 95, b: 137 },
        ft_test: Rgb { r: 158, g: 206, b: 106 },
        ft_config: Rgb { r: 224, g: 175, b: 104 },
    }
}

pub open spec fn gruvbox_colors() -> Palette {
    Palette {
        bg: Rgb { r: 40, g: 40, b: 40 },
        sidebar: Rgb { r: 50, g: 48, b: 47 },
        panel: Rgb { r: 29, g: 32, b: 33 },
        panel_elevated: Rgb { r: 40, g: 40, b: 40 },
        tab_bar: Rgb { r: 50, g: 48, b: 47 },
        tab_active: Rgb { r: 40, g: 40, b: 40 },
        tab_inactive: Rgb { r: 60, g: 56, b: 54 },
        tab_hover: Rgb { r: 80, g: 73, b: 69 },
        status: Rgb { r: 215, g: 153, b: 33 },
        status_fg: Rgb { r: 235, g: 219, b: 178 },
        titlebar: Rgb { r: 50, g: 48, b: 47 },
        fg: Rgb { r: 235, g: 219, b: 178 },
        fg_dim: Rgb { r: 168, g: 153, b: 132 },
        fg_muted: Rgb { r: 146, g: 131, b: 116 },
        accent: Rgb { r: 215, g: 153, b: 33 },
        accent_soft: Rgb { r: 102, g: 92, b: 84 },
        accent_glow: Rgb { r: 250, g: 189, b: 47 },
        border: Rgb { r: 80, g: 73, b: 69 },
        border_focus: Rgb { r: 250, g: 189, b: 47 },
        selection: Rgb { r: 60, g: 56, b: 54 },
        close: Rgb { r: 204, g: 36, b: 29 },
        close_muted: Rgb { r: 146, g: 131, b: 116 },
        git_mod: Rgb { r: 215, g: 153, b: 33 },
        git_add: Rgb { r: 152, g: 151, b: 26 },
        git_del: Rgb { r: 204, g: 36, b: 29 },
        folder: Rgb { r: 69, g: 133, b: 136 },
        file: Rgb { r: 235, g: 219, b: 178 },
        ft_ts: Rgb { r: 69, g: 133, b: 136 },
        ft_js: Rgb { r: 215, g: 153, b: 33 },
        ft_rs: Rgb { r: 214, g: 93, b: 14 },
        ft_go: Rgb { r: 69, g: 133, b: 136 },
        ft_py: Rgb { r: 215, g: 153, b: 33 },
        ft_md: Rgb { r: 177, g: 98, b: 134 },
        ft_json: Rgb { r: 177, g: 98, b: 134 },
        ft_yaml: Rgb { r: 204, g: 36, b: 29 },
        ft_toml: Rgb { r: 152, g: 151, b: 26 },
        ft_css: Rgb { r: 69, g: 133, b: 136 },
        ft_html: Rgb { r: 214, g: 93, b: 14 },
        ft_sh: Rgb { r: 152, g: 151, b: 26 },
        ft_docker: Rgb { r: 69, g: 133, b: 136 },
        ft_lock: Rgb { r: 146, g: 131, b: 116 },
        ft_test: Rgb { r: 152, g: 151, b: 26 },
        ft_config: Rgb { r: 215, g: 153, b: 33 },
    }
}

pub open spec fn one_dark_colors() -> Palette {
    Palette {
        bg: Rgb { r: 40, g: 44, b: 52 },
        sidebar: Rgb { r: 33, g: 37, b: 43 },
        panel: Rgb { r: 28, g: 31, b: 36 },
        panel_elevated: Rgb { r: 40, g: 44, b: 52 },
        tab_bar: Rgb { r: 33, g: 37, b: 43 },
        tab_active: Rgb { r: 40, g: 44, b: 52 },
        tab_inactive: Rgb { r: 50, g: 56, b: 66 },
        tab_hover: Rgb { r: 60, g: 66, b: 78 },
        status: Rgb { r: 97, g: 175, b: 239 },
        status_fg: Rgb { r: 171, g: 178, b: 191 },
        titlebar: Rgb { r: 33, g: 37, b: 43 },
        fg: Rgb { r: 171, g: 178, b: 191 },
        fg_dim: Rgb { r: 92, g: 99, b: 112 },
        fg_muted: Rgb { r: 75, g: 80, b: 92 },
        accent: Rgb { r: 97, g: 175, b: 239 },
        accent_soft: Rgb { r: 55, g: 62, b: 74 },
        accent_glow: Rgb { r: 86, g: 182, b: 194 },
        border: Rgb { r: 60, g: 66, b: 78 },
        border_focus: Rgb { r: 97, g: 175, b: 239 },
        selection: Rgb { r: 55, g: 62, b: 74 },
        close: Rgb { r: 224, g: 108, b: 117 },
        close_muted: Rgb { r: 92, g: 99, b: 112 },
        git_mod: Rgb { r: 229, g: 192, b: 123 },
        git_add: Rgb { r: 152, g: 195, b: 121 },
        git_del: Rgb { r: 224, g: 108, b: 117 },
        folder: Rgb { r: 97, g: 175, b: 239 },
        file: Rgb { r: 171, g: 178, b: 191 },
        ft_ts: Rgb { r: 86, g: 182, b: 194 },
        ft_js: Rgb { r: 229, g: 192, b: 123 },
        ft_rs: Rgb { r: 209, g: 154, b: 102 },
        ft_go: Rgb { r: 86, g: 182, b: 194 },
        ft_py: Rgb { r: 229, g: 192, b: 123 },
        ft_md: Rgb { r: 198, g: 120, b: 221 },
        ft_json: Rgb { r: 198, g: 120, b: 221 },
        ft_yaml: Rgb { r: 224, g: 108, b: 117 },
        ft_toml: Rgb { r: 152, g: 195, b: 121 },
        ft_css: Rgb { r: 97, g: 175, b: 239 },
        ft_html: Rgb { r: 209, g: 154, b: 102 },
        ft_sh: Rgb { r: 152, g: 195, b: 121 },
        ft_docker: Rgb { r: 97, g: 175, b: 239 },
        ft_lock: Rgb { r: 92, g: 99, b: 112 },
        ft_test: Rgb { r: 152, g: 195, b: 121 },
        ft_config: Rgb { r: 229, g: 192, b: 123 },
    }
}

pub open spec fn solarized_colors() -> Palette {
    Palette {
        bg: Rgb { r: 0, g: 43, b: 54 },
        sidebar: Rgb { r: 7, g: 54, b: 66 },
        panel: Rgb { r: 0, g: 30, b: 38 },
        panel_elevated: Rgb { r: 0, g: 43, b: 54 },
        tab_bar: Rgb { r: 7, g: 54, b: 66 },
        tab_active: Rgb { r: 0, g: 43, b: 54 },
        tab_inactive: Rgb { r: 7, g: 54, b: 66 },
        tab_hover: Rgb { r: 88, g: 110, b: 117 },
        status: Rgb { r: 38, g: 139, b: 210 },
        status_fg: Rgb { r: 253, g: 246, b: 227 },
        titlebar: Rgb { r: 7, g: 54, b: 66 },
        fg: Rgb { r: 147, g: 161, b: 161 },
        fg_dim: Rgb { r: 88, g: 110, b: 117 },
        fg_muted: Rgb { r: 101, g: 123, b: 131 },
        accent: Rgb { r: 38, g: 139, b: 210 },
        accent_soft: Rgb { r: 7, g: 54, b: 66 },
        accent_glow: Rgb { r: 42, g: 161, b: 152 },
        border: Rgb { r: 88, g: 110, b: 117 },
        border_focus: Rgb { r: 38, g: 139, b: 210 },
        selection: Rgb { r: 7, g: 54, b: 66 },
        close: Rgb { r: 220, g: 50, b: 47 },
        close_muted: Rgb { r: 88, g: 110, b: 117 },
        git_mod: Rgb { r: 181, g: 137, b: 0 },
        git_add: Rgb { r: 133, g: 153, b: 0 },
        git_del: Rgb { r: 220, g: 50, b: 47 },
        folder: Rgb { r: 38, g: 139, b: 210 },
        file: Rgb { r: 147, g: 161, b: 161 },
        ft_ts: Rgb { r: 42, g: 161, b: 152 },
        ft_js: Rgb { r: 181, g: 137, b: 0 },
        ft_rs: Rgb { r: 203, g: 75, b: 22 },
        ft_go: Rgb { r: 42, g: 161, b: 152 },
        ft_py: Rgb { r: 181, g: 137, b: 0 },
        ft_md: Rgb { r: 108, g: 113, b: 196 },
        ft_json: Rgb { r: 211, g: 54, b: 130 },
        ft_yaml: Rgb { r: 220, g: 50, b: 47 },
        ft_toml: Rgb { r: 133, g: 153, b: 0 },
        ft_css: Rgb { r: 38, g: 139, b: 210 },
        ft_html: Rgb { r: 203, g: 75, b: 22 },
        ft_sh: Rgb { r: 133, g: 153, b: 0 },
        ft_docker: Rgb { r: 38, g: 139, b: 210 },
        ft_lock: Rgb { r: 88, g: 110, b: 117 },
        ft_test: Rgb { r: 133, g: 153, b: 0 },
        ft_config: Rgb { r: 181, g: 137, b: 0 },
    }
}

/// The colours of the palette `id`.
pub open spec fn palette_colors(id: PaletteId) -> Palette {
    match id {
        PaletteId::GitHubDark => github_dark_colors(),
        PaletteId::Dracula => dracula_colors(),
        PaletteId::Catppuccin => catppuccin_colors(),
        PaletteId::Nord => nord_colors(),
        PaletteId::TokyoNight => tokyo_night_colors(),
        PaletteId::Gruvbox => gruvbox_colors(),
        PaletteId::OneDark => one_dark_colors(),
        PaletteId::Solarized => solarized_colors(),
    }
}

impl Palette {
    pub fn github_dark() -> (p: Self)
        ensures
            p == github_dark_colors(),
    {
        Palette {
            bg: rgb(13, 17, 23),
            sidebar: rgb(22, 27, 34),
            panel: rgb(1, 4, 9),
            panel_elevated: rgb(13, 17, 23),
            tab_bar: rgb(22, 27, 34),
            tab_active: rgb(13, 17, 23),
            tab_inactive: rgb(33, 38, 45),
            tab_hover: rgb(48, 54, 61),
            status: rgb(31, 111, 235),
            status_fg: rgb(255, 255, 255),
            titlebar: rgb(22, 27, 34),
            fg: rgb(230, 237, 243),
            fg_dim: rgb(139, 148, 158),
            fg_muted: rgb(110, 118, 129),
            accent: rgb(31, 111, 235),
            accent_soft: rgb(26, 84, 184),
            accent_glow: rgb(88, 166, 255),
            border: rgb(48, 54, 61),
            border_focus: rgb(88, 166, 255),
            selection: rgb(26, 54, 93),
            close: rgb(248, 81, 73),
            close_muted: rgb(110, 118, 129),
            git_mod: rgb(210, 153, 34),
            git_add: rgb(63, 185, 80),
            git_del: rgb(248, 81, 73),
            folder: rgb(121, 192, 255),
            file: rgb(201, 209, 217),
            ft_ts: rgb(79, 193, 255),
            ft_js: rgb(241, 224, 90),
            ft_rs: rgb(222, 165, 132),
            ft_go: rgb(0, 173, 216),
            ft_py: rgb(255, 222, 120),
            ft_md: rgb(130, 170, 255),
            ft_json: rgb(203, 166, 247),
            ft_yaml: rgb(247, 118, 142),
            ft_toml: rgb(158, 206, 106),
            ft_css: rgb(86, 156, 214),
            ft_html: rgb(228, 135, 106),
            ft_sh: rgb(125, 209, 143),
            ft_docker: rgb(56, 152, 236),
            ft_lock: rgb(110, 118, 129),
            ft_test: rgb(63, 185, 80),
            ft_config: rgb(210, 153, 34),
        }
    }

    pub fn dracula() -> (p: Self)
        ensures
            p == dracula_colors(),
    {
        Palette {
            bg: rgb(40, 42, 54),
            sidebar: rgb(33, 34, 44),
            panel: rgb(30, 31, 41),
            panel_elevated: rgb(40, 42, 54),
            tab_bar: rgb(33, 34, 44),
            tab_active: rgb(40, 42, 54),
            tab_inactive: rgb(68, 71, 90),
            tab_hover: rgb(98, 114, 164),
            status: rgb(189, 147, 249),
            status_fg: rgb(248, 248, 242),
            titlebar: rgb(33, 34, 44),
            fg: rgb(248, 248, 242),
            fg_dim: rgb(98, 114, 164),
            fg_muted: rgb(68, 71, 90),
            accent: rgb(189, 147, 249),
            accent_soft: rgb(98, 114, 164),
            accent_glow: rgb(139, 233, 253),
            border: rgb(68, 71, 90),
            border_focus: rgb(189, 147, 249),
            selection: rgb(68, 71, 90),
            close: rgb(255, 85, 85),
            close_muted: rgb(98, 114, 164),
            git_mod: rgb(241, 250, 140),
            git_add: rgb(80, 250, 123),
            git_del: rgb(255, 85, 85),
            folder: rgb(139, 233, 253),
            file: rgb(248, 248, 242),
            ft_ts: rgb(139, 233, 253),
            ft_js: rgb(241, 250, 140),
            ft_rs: rgb(255, 184, 108),
            ft_go: rgb(139, 233, 253),
            ft_py: rgb(241, 250, 140),
            ft_md: rgb(189, 147, 249),
            ft_json: rgb(255, 121, 198),
            ft_yaml: rgb(255, 85, 85),
            ft_toml: rgb(80, 250, 123),
            ft_css: rgb(139, 233, 253),
            ft_html: rgb(255, 184, 108),
            ft_sh: rgb(80, 250, 123),
            ft_docker: rgb(139, 233, 253),
            ft_lock: rgb(98, 114, 164),
            ft_test: rgb(80, 250, 123),
            ft_config: rgb(241, 250, 140),
        }
    }

    pub fn catppuccin() -> (p: Self)
        ensures
            p == catppuccin_colors(),
    {
        Palette {
            bg: rgb(30, 30, 46),
            sidebar: rgb(24, 24, 37),
            panel: rgb(17, 17, 27),
            panel_elevated: rgb(30, 30, 46),
            tab_bar: rgb(24, 24, 37),
            tab_active: rgb(30, 30, 46),
            tab_inactive: rgb(49, 50, 68),
            tab_hover: rgb(69, 71, 90),
            status: rgb(137, 180, 250),
            status_fg: rgb(205, 214, 244),
            titlebar: rgb(24, 24, 37),
            fg: rgb(205, 214, 244),
            fg_dim: rgb(127, 132, 156),
            fg_muted: rgb(108, 112, 134),
            accent: rgb(137, 180, 250),
            accent_soft: rgb(69, 71, 90),
            accent_glow: rgb(116, 199, 236),
            border: rgb(49, 50, 68),
            border_focus: rgb(137, 180, 250),
            selection: rgb(69, 71, 90),
            close: rgb(243, 139, 168),
            close_muted: rgb(108, 112, 134),
            git_mod: rgb(249, 226, 175),
            git_add: rgb(166, 227, 161),
            git_del: rgb(243, 139, 168),
            folder: rgb(137, 180, 250),
            file: rgb(205, 214, 244),
            ft_ts: rgb(116, 199, 236),
            ft_js: rgb(249, 226, 175),
            ft_rs: rgb(250, 179, 135),
            ft_go: rgb(148, 226, 213),
            ft_py: rgb(249, 226, 175),
            ft_md: rgb(180, 190, 254),
            ft_json: rgb(203, 166, 247),
            ft_yaml: rgb(243, 139, 168),
            ft_toml: rgb(166, 227, 161),
            ft_css: rgb(137, 180, 250),
            ft_html: rgb(250, 179, 135),
            ft_sh: rgb(166, 227, 161),
            ft_docker: rgb(137, 180, 250),
            ft_lock: rgb(108, 112, 134),
            ft_test: rgb(166, 227, 161),
            ft_config: rgb(249, 226, 175),
        }
    }

    pub fn nord() -> (p: Self)
        ensures
            p == nord_colors(),
    {
        Palette {
            bg: rgb(46, 52, 64),
            sidebar: rgb(59, 66, 82),
            panel: rgb(36, 41, 51),
            panel_elevated: rgb(46, 52, 64),
            tab_bar: rgb(59, 66, 82),
            tab_active: rgb(46, 52, 64),
            tab_inactive: rgb(67, 76, 94),
            tab_hover: rgb(76, 86, 106),
            status: rgb(136, 192, 208),
            status_fg: rgb(236, 239, 244),
            titlebar: rgb(59, 66, 82),
            fg: rgb(236, 239, 244),
            fg_dim: rgb(216, 222, 233),
            fg_muted: rgb(129, 161, 193),
            accent: rgb(136, 192, 208),
            accent_soft: rgb(94, 129, 172),
            accent_glow: rgb(143, 188, 187),
            border: rgb(76, 86, 106),
            border_focus: rgb(136, 192, 208),
            selection: rgb(67, 76, 94),
            close: rgb(191, 97, 106),
            close_muted: rgb(129, 161, 193),
            git_mod: rgb(235, 203, 139),
            git_add: rgb(163, 190, 140),
            git_del: rgb(191, 97, 106),
            folder: rgb(129, 161, 193),
            file: rgb(236, 239, 244),
            ft_ts: rgb(136, 192, 208),
            ft_js: rgb(235, 203, 139),
            ft_rs: rgb(208, 135, 112),
            ft_go: rgb(136, 192, 208),
            ft_py: rgb(235, 203, 139),
            ft_md: rgb(180, 142, 173),
            ft_json: rgb(180, 142, 173),
            ft_yaml: rgb(191, 97, 106),
            ft_toml: rgb(163, 190, 140),
            ft_css: rgb(129, 161, 193),
            ft_html: rgb(208, 135, 112),
            ft_sh: rgb(163, 190, 140),
            ft_docker: rgb(136, 192, 208),
            ft_lock: rgb(129, 161, 193),
            ft_test: rgb(163, 190, 140),
            ft_config: rgb(235, 203, 139),
        }
    }

    pub fn tokyo_night() -> (p: Self)
        ensures
            p == tokyo_night_colors(),
    {
        Palette {
            bg: rgb(26, 27, 38),
            sidebar: rgb(22, 22, 30),
            panel: rgb(16, 16, 24),
            panel_elevated: rgb(26, 27, 38),
            tab_bar: rgb(22, 22, 30),
            tab_active: rgb(26, 27, 38),
            tab_inactive: rgb(41, 42, 58),
            tab_hover: rgb(54, 56, 76),
            status: rgb(122, 162, 247),
            status_fg: rgb(192, 202, 245),
            titlebar: rgb(22, 22, 30),
            fg: rgb(192, 202, 245),
            fg_dim: rgb(86, 95, 137),
            fg_muted: rgb(65, 72, 104),
            accent: rgb(122, 162, 247),
            accent_soft: rgb(41, 46, 86),
            accent_glow: rgb(125, 207, 255),
            border: rgb(41, 42, 58),
            border_focus: rgb(122, 162, 247),
            selection: rgb(41, 46, 86),
            close: rgb(247, 118, 142),
            close_muted: rgb(86, 95, 137),
            git_mod: rgb(224, 175, 104),
            git_add: rgb(158, 206, 106),
            git_del: rgb(247, 118, 142),
            folder: rgb(122, 162, 247),
            file: rgb(192, 202, 245),
            ft_ts: rgb(125, 207, 255),
            ft_js: rgb(224, 175, 104),
            ft_rs: rgb(255, 158, 100),
            ft_go: rgb(125, 207, 255),
            ft_py: rgb(224, 175, 104),
            ft_md: rgb(187, 154, 247),
            ft_json: rgb(187, 154, 247),
            ft_yaml: rgb(247, 118, 142),
            ft_toml: rgb(158, 206, 106),
            ft_css: rgb(122, 162, 247),
            ft_html: rgb(255, 158, 100),
            ft_sh: rgb(158, 206, 106),
            ft_docker: rgb(122, 162, 247),
            ft_lock: rgb(86, 95, 137),
            ft_test: rgb(158, 206, 106),
            ft_config: rgb(224, 175, 104),
        }
    }

    pub fn gruvbox() -> (p: Self)
        ensures
            p == gruvbox_colors(),
    {
        Palette {
            bg: rgb(40, 40, 40),
            sidebar: rgb(50, 48, 47),
            panel: rgb(29, 32, 33),
            panel_elevated: rgb(40, 40, 40),
            tab_bar: rgb(50, 48, 47),
            tab_active: rgb(40, 40, 40),
            tab_inactive: rgb(60, 56, 54),
            tab_hover: rgb(80, 73, 69),
            status: rgb(215, 153, 33),
            status_fg: rgb(235, 219, 178),
            titlebar: rgb(50, 48, 47),
            fg: rgb(235, 219, 178),
            fg_dim: rgb(168, 153, 132),
            fg_muted: rgb(146, 131, 116),
            accent: rgb(215, 153, 33),
            accent_soft: rgb(102, 92, 84),
            accent_glow: rgb(250, 189, 47),
            border: rgb(80, 73, 69),
            border_focus: rgb(250, 189, 47),
            selection: rgb(60, 56, 54),
            close: rgb(204, 36, 29),
            close_muted: rgb(146, 131, 116),
            git_mod: rgb(215, 153, 33),
            git_add: rgb(152, 151, 26),
            git_del: rgb(204, 36, 29),
            folder: rgb(69, 133, 136),
            file: rgb(235, 219, 178),
            ft_ts: rgb(69, 133, 136),
            ft_js: rgb(215, 153, 33),
            ft_rs: rgb(214, 93, 14),
            ft_go: rgb(69, 133, 136),
            ft_py: rgb(215, 153, 33),
            ft_md: rgb(177, 98, 134),
            ft_json: rgb(177, 98, 134),
            ft_yaml: rgb(204, 36, 29),
            ft_toml: rgb(152, 151, 26),
            ft_css: rgb(69, 133, 136),
            ft_html: rgb(214, 93, 14),
            ft_sh: rgb(152, 151, 26),
            ft_docker: rgb(69, 133, 136),
            ft_lock: rgb(146, 131, 116),
            ft_test: rgb(152, 151, 26),
            ft_config: rgb(215, 153, 33),
        }
    }

    pub fn one_dark() -> (p: Self)
        ensures
            p == one_dark_colors(),
    {
        Palette {
            bg: rgb(40, 44, 52),
            sidebar: rgb(33, 37, 43),
            panel: rgb(28, 31, 36),
            panel_elevated: rgb(40, 44, 52),
            tab_bar: rgb(33, 37, 43),
            tab_active: rgb(40, 44, 52),
            tab_inactive: rgb(50, 56, 66),
            tab_hover: rgb(60, 66, 78),
            status: rgb(97, 175, 239),
            status_fg: rgb(171, 178, 191),
            titlebar: rgb(33, 37, 43),
            fg: rgb(171, 178, 191),
            fg_dim: rgb(92, 99, 112),
            fg_muted: rgb(75, 80, 92),
            accent: rgb(97, 175, 239),
            accent_soft: rgb(55, 62, 74),
            accent_glow: rgb(86, 182, 194),
            border: rgb(60, 66, 78),
            border_focus: rgb(97, 175, 239),
            selection: rgb(55, 62, 74),
            close: rgb(224, 108, 117),
            close_muted: rgb(92, 99, 112),
            git_mod: rgb(229, 192, 123),
            git_add: rgb(152, 195, 121),
            git_del: rgb(224, 108, 117),
            folder: rgb(97, 175, 239),
            file: rgb(171, 178, 191),
            ft_ts: rgb(86, 182, 194),
            ft_js: rgb(229, 192, 123),
            ft_rs: rgb(209, 154, 102),
            ft_go: rgb(86, 182, 194),
            ft_py: rgb(229, 192, 123),
            ft_md: rgb(198, 120, 221),
            ft_json: rgb(198, 120, 221),
            ft_yaml: rgb(224, 108, 117),
            ft_toml: rgb(152, 195, 121),
            ft_css: rgb(97, 175, 239),
            ft_html: rgb(209, 154, 102),
            ft_sh: rgb(152, 195, 121),
            ft_docker: rgb(97, 175, 239),
            ft_lock: rgb(92, 99, 112),
            ft_test: rgb(152, 195, 121),
            ft_config: rgb(229, 192, 123),
        }
    }

    pub fn solarized() -> (p: Self)
        ensures
            p == solarized_colors(),
    {
        Palette {
            bg: rgb(0, 43, 54),
            sidebar: rgb(7, 54, 66),
            panel: rgb(0, 30, 38),
            panel_elevated: rgb(0, 43, 54),
            tab_bar: rgb(7, 54, 66),
            tab_active: rgb(0, 43, 54),
            tab_inactive: rgb(7, 54, 66),
            tab_hover: rgb(88, 110, 117),
            status: rgb(38, 139, 210),
            status_fg: rgb(253, 246, 227),
            titlebar: rgb(7, 54, 66),
            fg: rgb(147, 161, 161),
            fg_dim: rgb(88, 110, 117),
            fg_muted: rgb(101, 123, 131),
            accent: rgb(38, 139, 210),
            accent_soft: rgb(7, 54, 66),
            accent_glow: rgb(42, 161, 152),
            border: rgb(88, 110, 117),
            border_focus: rgb(38, 139, 210),
            selection: rgb(7, 54, 66),
            close: rgb(220, 50, 47),
            close_muted: rgb(88, 110, 117),
            git_mod: rgb(181, 137, 0),
            git_add: rgb(133, 153, 0),
            git_del: rgb(220, 50, 47),
            folder: rgb(38, 139, 210),
            file: rgb(147, 161, 161),
            ft_ts: rgb(42, 161, 152),
            ft_js: rgb(181, 137, 0),
            ft_rs: rgb(203, 75, 22),
            ft_go: rgb(42, 161, 152),
            ft_py: rgb(181, 137, 0),
            ft_md: rgb(108, 113, 196),
            ft_json: rgb(211, 54, 130),
            ft_yaml: rgb(220, 50, 47),
            ft_toml: rgb(133, 153, 0),
            ft_css: rgb(38, 139, 210),
            ft_html: rgb(203, 75, 22),
            ft_sh: rgb(133, 153, 0),
            ft_docker: rgb(38, 139, 210),
            ft_lock: rgb(88, 110, 117),
            ft_test: rgb(133, 153, 0),
            ft_config: rgb(181, 137, 0),
        }
    }

    pub fn for_id(id: PaletteId) -> (p: Self)
        ensures
            p == palette_colors(id),
    {
        match id {
            PaletteId::GitHubDark => Palette::github_dark(),
            PaletteId::Dracula => Palette::dracula(),
            PaletteId::Catppuccin => Palette::catppuccin(),
            PaletteId::Nord => Palette::nord(),
            PaletteId::TokyoNight => Palette::tokyo_night(),
            PaletteId::Gruvbox => Palette::gruvbox(),
            PaletteId::OneDark => Palette::one_dark(),
            PaletteId::Solarized => Palette::solarized(),
        }
    }
}


// ---------------------------------------------------------------------------
// File colours
// ---------------------------------------------------------------------------

pub open spec fn has_suffix(s: Seq<char>, t: Seq<char>) -> bool {
    t.len() <= s.len() && s.skip(s.len() - t.len()) == t
}

pub open spec fn has_infix(s: Seq<char>, t: Seq<char>) -> bool {
    exists|i: int| 0 <= i && i + t.len() <= s.len() && #[trigger] s.subrange(i, i + t.len()) == t
}

pub(crate) fn ends_with_lit(v: &Vec<char>, lit: &str) -> (r: bool)
    ensures
        r == has_suffix(v@, lit@),
{
    let t = chars_of(lit);
    if t.len() > v.len() {
        return false;
    }
    let r = crate::text::matches_at(v, v.len() - t.len(), &t);
    proof {
        let at = v@.len() - t@.len();
        assert(v@.skip(at).take(t@.len() as int) =~= v@.skip(at));
    }
    r
}

pub(crate) fn starts_with_lit(v: &Vec<char>, lit: &str) -> (r: bool)
    ensures
        r == crate::text::has_prefix(v@, lit@),
{
    let t = chars_of(lit);
    let r = crate::text::matches_at(v, 0, &t);
    assert(v@.skip(0) =~= v@);
    r
}

pub(crate) fn eq_lit(v: &Vec<char>, lit: &str) -> (r: bool)
    ensures
        r == (v@ == lit@),
{
    let t = chars_of(lit);
    crate::text::compare_chars(v, &t) == 0
}

fn contains_lit(v: &Vec<char>, lit: &str) -> (r: bool)
    ensures
        r == has_infix(v@, lit@),
{
    let t = chars_of(lit);
    if t.len() > v.len() {
        return false;
    }
    let m = v.len() - t.len();
    let mut i: usize = 0;
    while i < m
        invariant
            t@ == lit@,
            t@.len() <= v@.len(),
            m == v@.len() - t@.len(),
            i <= m,
            forall|j: int| 0 <= j < i ==> #[trigger] v@.subrange(j, j + t@.len()) != t@,
        decreases m - i,
    {
        if crate::text::matches_at(v, i, &t) {
            assert(v@.skip(i as int).take(t@.len() as int) =~= v@.subrange(i as int, i + t@.len()));
            return true;
        }
        assert(v@.skip(i as int).take(t@.len() as int) =~= v@.subrange(i as int, i + t@.len()));
        i = i + 1;
    }
    if crate::text::matches_at(v, m, &t) {
        assert(v@.skip(m as int).take(t@.len() as int) =~= v@.subrange(m as int, m + t@.len()));
        return true;
    }
    assert(v@.skip(m as int).take(t@.len() as int) =~= v@.subrange(m as int, m + t@.len()));
    assert forall|j: int| 0 <= j && j + t@.len() <= v@.len() implies #[trigger] v@.subrange(j, j + t@.len()) != t@ by {}
    false
}

/// The kinds of file that the explorer colours apart.
#[derive(Debug, Clone, Copy, PartialEq, Eq, Structural)]
pub enum FileKind {
    Ts,
    Js,
    Rs,
    Go,
    Py,
    Md,
    Json,
    Yaml,
    Toml,
    Css,
    Html,
    Sh,
    Docker,
    Lock,
    Test,
    Config,
    Plain,
}

/// The kind of the file with the lowercase name `n`; the first rule that applies wins.
pub open spec fn file_kind(n: Seq<char>) -> FileKind {
    if has_suffix(n, ".ts"@) || has_suffix(n, ".tsx"@) || has_suffix(n, ".mts"@) {
        FileKind::Ts
    } else if has_suffix(n, ".js"@) || has_suffix(n, ".jsx"@) || has_suffix(n, ".mjs"@) || has_suffix(n, ".cjs"@) {
        FileKind::Js
    } else if has_suffix(n, ".rs"@) {
        FileKind::Rs
    } else if has_suffix(n, ".go"@) {
        FileKind::Go
    } else if has_suffix(n, ".py"@) || has_suffix(n, ".pyi"@) {
        FileKind::Py
    } else if has_suffix(n, ".md"@) || has_suffix(n, ".mdx"@) || has_suffix(n, ".markdown"@) {
        FileKind::Md
    } else if has_suffix(n, ".json"@) || has_suffix(n, ".jsonc"@) {
        FileKind::Json
    } else if has_suffix(n, ".yml"@) || has_suffix(n, ".yaml"@) {
        FileKind::Yaml
    } else if has_suffix(n, ".toml"@) {
        FileKind::Toml
    } else if has_suffix(n, ".css"@) || has_suffix(n, ".scss"@) || has_suffix(n, ".sass"@) || has_suffix(n, ".less"@) {
        FileKind::Css
    } else if has_suffix(n, ".html"@) || has_suffix(n, ".htm"@) || has_suffix(n, ".svg"@) {
        FileKind::Html
    } else if has_suffix(n, ".sh"@) || has_suffix(n, ".bash"@) || has_suffix(n, ".zsh"@) || has_suffix(n, ".fish"@) {
        FileKind::Sh
    } else if n == "dockerfile"@ || crate::text::has_prefix(n, "dockerfile."@) || has_suffix(n, ".dockerfile"@) {
        FileKind::Docker
    } else if has_suffix(n, ".lock"@) || n == "pnpm-lock.yaml"@ || n == "package-lock.json"@ || n == "cargo.lock"@ {
        FileKind::Lock
    } else if has_infix(n, ".test."@) || has_infix(n, ".spec."@) || has_suffix(n, "_test.go"@) || has_suffix(n, "_test.rs"@) {
        FileKind::Test
    } else if (n.len() > 0 && n[0] == '.') || has_suffix(n, ".env"@) || n == "makefile"@ || has_suffix(n, ".config.js"@) || has_suffix(n, ".config.ts"@) {
        FileKind::Config
    } else {
        FileKind::Plain
    }
}

/// The kind of the file named `name`, by its lowercase form.
pub fn kind_of_file(name: &str) -> (k: FileKind)
    ensures
        k == file_kind(unicode_lowercase(name@)),
{
    let lower = to_lowercase(name);
    let n = chars_of(lower.as_str());
    if ends_with_lit(&n, ".ts") || ends_with_lit(&n, ".tsx") || ends_with_lit(&n, ".mts") {
        FileKind::Ts
    } else if ends_with_lit(&n, ".js") || ends_with_lit(&n, ".jsx") || ends_with_lit(&n, ".mjs") || ends_with_lit(&n, ".cjs") {
        FileKind::Js
    } else if ends_with_lit(&n, ".rs") {
        FileKind::Rs
    } else if ends_with_lit(&n, ".go") {
        FileKind::Go
    } else if ends_with_lit(&n, ".py") || ends_with_lit(&n, ".pyi") {
        FileKind::Py
    } else if ends_with_lit(&n, ".md") || ends_with_lit(&n, ".mdx") || ends_with_lit(&n, ".markdown") {
        FileKind::Md
    } else if ends_with_lit(&n, ".json") || ends_with_lit(&n, ".jsonc") {
        FileKind::Json
    } else if ends_with_lit(&n, ".yml") || ends_with_lit(&n, ".yaml") {
        FileKind::Yaml
    } else if ends_with_lit(&n, ".toml") {
        FileKind::Toml
    } else if ends_with_lit(&n, ".css") || ends_with_lit(&n, ".scss") || ends_with_lit(&n, ".sass") || ends_with_lit(&n, ".less") {
        FileKind::Css
    } else if ends_with_lit(&n, ".html") || ends_with_lit(&n, ".htm") || ends_with_lit(&n, ".svg") {
        FileKind::Html
    } else if ends_with_lit(&n, ".sh") || ends_with_lit(&n, ".bash") || ends_with_lit(&n, ".zsh") || ends_with_lit(&n, ".fish") {
        FileKind::Sh
    } else if eq_lit(&n, "dockerfile") || starts_with_lit(&n, "dockerfile.") || ends_with_lit(&n, ".dockerfile") {
        FileKind::Docker
    } else if ends_with_lit(&n, ".lock") || eq_lit(&n, "pnpm-lock.yaml") || eq_lit(&n, "package-lock.json") || eq_lit(&n, "cargo.lock") {
        FileKind::Lock
    } else if contains_lit(&n, ".test.") || contains_lit(&n, ".spec.") || ends_with_lit(&n, "_test.go") || ends_with_lit(&n, "_test.rs") {
        FileKind::Test
    } else if (n.len() > 0 && n[0] == '.') || ends_with_lit(&n, ".env") || eq_lit(&n, "makefile") || ends_with_lit(&n, ".config.js") || ends_with_lit(&n, ".config.ts") {
        FileKind::Config
    } else {
        FileKind::Plain
    }
}

/// The colour that a palette gives a kind of file.
pub open spec fn kind_color(p: Palette, k: FileKind) -> Rgb {
    match k {
        FileKind::Ts => p.ft_ts,
        FileKind::Js => p.ft_js,
        FileKind::Rs => p.ft_rs,
        FileKind::Go => p.ft_go,
        FileKind::Py => p.ft_py,
        FileKind::Md => p.ft_md,
        FileKind::Json => p.ft_json,
        FileKind::Yaml => p.ft_yaml,
        FileKind::Toml => p.ft_toml,
        FileKind::Css => p.ft_css,
        FileKind::Html => p.ft_html,
        FileKind::Sh => p.ft_sh,
        FileKind::Docker => p.ft_docker,
        FileKind::Lock => p.ft_lock,
        FileKind::Test => p.ft_test,
        FileKind::Config => p.ft_config,
        FileKind::Plain => p.file,
    }
}

impl Palette {
    pub fn color_for(&self, k: FileKind) -> (c: Rgb)
        ensures
            c == kind_color(*self, k),
    {
        match k {
            FileKind::Ts => self.ft_ts,
            FileKind::Js => self.ft_js,
            FileKind::Rs => self.ft_rs,
            FileKind::Go => self.ft_go,
            FileKind::Py => self.ft_py,
            FileKind::Md => self.ft_md,
            FileKind::Json => self.ft_json,
            FileKind::Yaml => self.ft_yaml,
            FileKind::Toml => self.ft_toml,
            FileKind::Css => self.ft_css,
            FileKind::Html => self.ft_html,
            FileKind::Sh => self.ft_sh,
            FileKind::Docker => self.ft_docker,
            FileKind::Lock => self.ft_lock,
            FileKind::Test => self.ft_test,
            FileKind::Config => self.ft_config,
            FileKind::Plain => self.file,
        }
    }
}

// ---------------------------------------------------------------------------
// The selected palette
// ---------------------------------------------------------------------------

/// Foreground, background and boldness of a piece of the interface.
#[derive(Debug, Clone, Copy, PartialEq, Eq, Structural)]
pub struct StyleSpec {
    pub fg: Option<Rgb>,
    pub bg: Option<Rgb>,
    pub bold: bool,
}

/// The palette in use.
pub struct Theme {
    pub current: PaletteId,
}

impl Theme {
    /// The theme at start-up: GitHub Dark.
    pub fn new() -> (t: Self)
        ensures
            t.current == PaletteId::GitHubDark,
    {
        Theme { current: PaletteId::GitHubDark }
    }

    pub fn id(&self) -> (r: PaletteId)
        ensures
            r == self.current,
    {
        self.current
    }

    pub fn get(&self) -> (p: Palette)
        ensures
            p == palette_colors(self.current),
    {
        Palette::for_id(self.current)
    }

    pub fn set(&mut self, id: PaletteId)
        ensures
            final(self).current == id,
    {
        self.current = id;
    }

    /// Switches to the next palette in picker order, after the last the first.
    pub fn cycle(&mut self) -> (next: PaletteId)
        ensures
            next == palette_at((palette_index(old(self).current) + 1) % 8),
            final(self).current == next,
    {
        let next = PaletteId::from_index(self.current.index() + 1);
        self.set(next);
        next
    }

    /// Adopts the palette named in the saved setting `saved`, if it names one.
    pub fn load_saved(&mut self, saved: Option<&str>)
        ensures
            final(self).current == match saved {
                Some(raw) => match first_answering(unicode_lowercase(trim(trim(raw@))), 0) {
                    Some(id) => id,
                    None => old(self).current,
                },
                None => old(self).current,
            },
            saved matches Some(raw) ==> (all_ascii(trim(trim(raw@))) ==> final(self).current == match first_answering(
                lower_ascii(trim(trim(raw@))),
                0,
            ) {
                Some(id) => id,
                None => old(self).current,
            }),
    {
        if let Some(raw) = saved {
            let t = trim_string(raw);
            if let Some(id) = PaletteId::from_id(t.as_str()) {
                self.current = id;
            }
        }
    }

    /// The colour of the file named `name` in the current palette.
    pub fn file_color(&self, name: &str) -> (c: Rgb)
        ensures
            c == kind_color(palette_colors(self.current), file_kind(unicode_lowercase(name@))),
    {
        let p = self.get();
        p.color_for(kind_of_file(name))
    }

    pub fn bg(&self) -> (s: StyleSpec)
        ensures
            s == (StyleSpec { fg: Some(palette_colors(self.current).fg), bg: Some(palette_colors(self.current).bg), bold: false }),
    {
        let p = self.get();
        StyleSpec { fg: Some(p.fg), bg: Some(p.bg), bold: false }
    }

    pub fn sidebar(&self) -> (s: StyleSpec)
        ensures
            s == (StyleSpec { fg: Some(palette_colors(self.current).fg), bg: Some(palette_colors(self.current).sidebar), bold: false }),
    {
        let p = self.get();
        StyleSpec { fg: Some(p.fg), bg: Some(p.sidebar), bold: false }
    }

    pub fn panel(&self) -> (s: StyleSpec)
        ensures
            s == (StyleSpec { fg: Some(palette_colors(self.current).fg), bg: Some(palette_colors(self.current).panel), bold: false }),
    {
        let p = self.get();
        StyleSpec { fg: Some(p.fg), bg: Some(p.panel), bold: false }
    }

    /// Pane border: the focus colour in bold when focused.
    pub fn border(&self, focused: bool) -> (s: StyleSpec)
        ensures
            s == if focused {
                StyleSpec { fg: Some(palette_colors(self.current).border_focus), bg: None, bold: true }
            } else {
                StyleSpec { fg: Some(palette_colors(self.current).border), bg: None, bold: false }
            },
    {
        let p = self.get();
        if focused {
            StyleSpec { fg: Some(p.border_focus), bg: None, bold: true }
        } else {
            StyleSpec { fg: Some(p.border), bg: None, bold: false }
        }
    }

    /// Pane title: status text on the accent in bold when focused.
    pub fn title(&self, focused: bool) -> (s: StyleSpec)
        ensures
            s == if focused {
                StyleSpec { fg: Some(palette_colors(self.current).status_fg), bg: Some(palette_colors(self.current).accent), bold: true }
            } else {
                StyleSpec { fg: Some(palette_colors(self.current).fg_dim), bg: Some(palette_colors(self.current).titlebar), bold: false }
            },
    {
        let p = self.get();
        if focused {
            StyleSpec { fg: Some(p.status_fg), bg: Some(p.accent), bold: true }
        } else {
            StyleSpec { fg: Some(p.fg_dim), bg: Some(p.titlebar), bold: false }
        }
    }

    pub fn status(&self) -> (s: StyleSpec)
        ensures
            s == (StyleSpec { fg: Some(palette_colors(self.current).status_fg), bg: Some(palette_colors(self.current).status), bold: false }),
    {
        let p = self.get();
        StyleSpec { fg: Some(p.status_fg), bg: Some(p.status), bold: false }
    }

    pub fn tab_inactive(&self) -> (s: StyleSpec)
        ensures
            s == (StyleSpec { fg: Some(palette_colors(self.current).fg_dim), bg: Some(palette_colors(self.current).tab_inactive), bold: false }),
    {
        let p = self.get();
        StyleSpec { fg: Some(p.fg_dim), bg: Some(p.tab_inactive), bold: false }
    }

    pub fn tab_bar(&self) -> (s: StyleSpec)
        ensures
            s == (StyleSpec { fg: Some(palette_colors(self.current).fg_dim), bg: Some(palette_colors(self.current).tab_bar), bold: false }),
    {
        let p = self.get();
        StyleSpec { fg: Some(p.fg_dim), bg: Some(p.tab_bar), bold: false }
    }

    pub fn button(&self) -> (s: StyleSpec)
        ensures
            s == (StyleSpec { fg: Some(palette_colors(self.current).status_fg), bg: Some(palette_colors(self.current).accent), bold: true }),
    {
        let p = self.get();
        StyleSpec { fg: Some(p.status_fg), bg: Some(p.accent), bold: true }
    }

    /// The close button of a tab.
    pub fn button_close(&self, active: bool) -> (s: StyleSpec)
        ensures
            s == if active {
                StyleSpec { fg: Some(palette_colors(self.current).close), bg: Some(palette_colors(self.current).tab_active), bold: false }
            } else {
                StyleSpec { fg: Some(palette_colors(self.current).close_muted), bg: Some(palette_colors(self.current).tab_inactive), bold: false }
            },
    {
        let p = self.get();
        if active {
            StyleSpec { fg: Some(p.close), bg: Some(p.tab_active), bold: false }
        } else {
            StyleSpec { fg: Some(p.close_muted), bg: Some(p.tab_inactive), bold: false }
        }
    }
}


// ---------------------------------------------------------------------------
// Laws
// ---------------------------------------------------------------------------

/// Picker positions and palettes correspond one to one.
pub proof fn law_palette_index_roundtrip(p: PaletteId, i: int)
    ensures
        palette_at(palette_index(p)) == p,
        0 <= palette_index(p) < 8,
        0 <= i < 8 ==> palette_index(palette_at(i)) == i,
{
}

/// Cycling eight times comes back to the palette one started from.
pub proof fn law_cycle_returns(p: PaletteId)
    ensures
        cycle_n(p, 8) == p,
{
    lemma_cycle_n(p, 8);
}

proof fn lemma_cycle_n(p: PaletteId, n: nat)
    ensures
        cycle_n(p, n) == palette_at((palette_index(p) + n) % 8),
    decreases n,
{
    if n > 0 {
        let q = palette_at((palette_index(p) + 1) % 8);
        lemma_cycle_n(q, (n - 1) as nat);
        assert(palette_index(q) == (palette_index(p) + 1) % 8);
        assert((palette_index(q) + (n - 1)) % 8 == (palette_index(p) + n) % 8);
    } else {
        assert(palette_index(p) % 8 == palette_index(p));
    }
}

/// The palette after `n` presses of the cycle key.
pub open spec fn cycle_n(p: PaletteId, n: nat) -> PaletteId
    decreases n,
{
    if n == 0 {
        p
    } else {
        cycle_n(palette_at((palette_index(p) + 1) % 8), (n - 1) as nat)
    }
}

/// Every palette answers to its own id and to its lowercase display name, and
/// ids and names pick out one palette each.
pub proof fn law_names_select_palette(p: PaletteId)
    ensures
        first_answering(palette_key(p), 0) == Some(p),
        first_answering(lower_ascii(palette_name(p)), 0) == Some(p),
{
    lemma_lower_names();
    reveal_strlit("github-dark");
    reveal_strlit("dracula");
    reveal_strlit("catppuccin");
    reveal_strlit("nord");
    reveal_strlit("tokyo-night");
    reveal_strlit("gruvbox");
    reveal_strlit("one-dark");
    reveal_strlit("solarized");
    reveal_strlit("github dark");
    reveal_strlit("dracula");
    reveal_strlit("catppuccin mocha");
    reveal_strlit("nord");
    reveal_strlit("tokyo night");
    reveal_strlit("gruvbox dark");
    reveal_strlit("one dark");
    reveal_strlit("solarized dark");
    match p {
        PaletteId::GitHubDark => {
            lemma_first_answering_at("github-dark"@, 0);
            lemma_first_answering_at("github dark"@, 0);
        },
        PaletteId::Dracula => {
            assert("dracula"@[0] != "github-dark"@[0]);
            assert("dracula"@[0] != "github dark"@[0]);
            lemma_first_answering_at("dracula"@, 1);
            assert("dracula"@[0] != "github-dark"@[0]);
            assert("dracula"@[0] != "github dark"@[0]);
            lemma_first_answering_at("dracula"@, 1);
        },
        PaletteId::Catppuccin => {
            assert("catppuccin"@[0] != "github-dark"@[0]);
            assert("catppuccin"@[0] != "github dark"@[0]);
            assert("catppuccin"@[0] != "dracula"@[0]);
            assert("catppuccin"@[0] != "dracula"@[0]);
            lemma_first_answering_at("catppuccin"@, 2);
            assert("catppuccin mocha"@[0] != "github-dark"@[0]);
            assert("catppuccin mocha"@[0] != "github dark"@[0]);
            assert("catppuccin mocha"@[0] != "dracula"@[0]);
            assert("catppuccin mocha"@[0] != "dracula"@[0]);
            lemma_first_answering_at("catppuccin mocha"@, 2);
        },
        PaletteId::Nord => {
            assert("nord"@[0] != "github-dark"@[0]);
            assert("nord"@[0] != "github dark"@[0]);
            assert("nord"@[0] != "dracula"@[0]);
            assert("nord"@[0] != "dracula"@[0]);
            assert("nord"@[0] != "catppuccin"@[0]);
            assert("nord"@[0] != "catppuccin mocha"@[0]);
            lemma_first_answering_at("nord"@, 3);
            assert("nord"@[0] != "github-dark"@[0]);
            assert("nord"@[0] != "github dark"@[0]);
            assert("nord"@[0] != "dracula"@[0]);
            assert("nord"@[0] != "dracula"@[0]);
            assert("nord"@[0] != "catppuccin"@[0]);
            assert("nord"@[0] != "catppuccin mocha"@[0]);
            lemma_first_answering_at("nord"@, 3);
        },
        PaletteId::TokyoNight => {
            assert("tokyo-night"@[0] != "github-dark"@[0]);
            assert("tokyo-night"@[0] != "github dark"@[0]);
            assert("tokyo-night"@[0] != "dracula"@[0]);
            assert("tokyo-night"@[0] != "dracula"@[0]);
            assert("tokyo-night"@[0] != "catppuccin"@[0]);
            assert("tokyo-night"@[0] != "catppuccin mocha"@[0]);
            assert("tokyo-night"@[0] != "nord"@[0]);
            assert("tokyo-night"@[0] != "nord"@[0]);
            lemma_first_answering_at("tokyo-night"@, 4);
            assert("tokyo night"@[0] != "github-dark"@[0]);
            assert("tokyo night"@[0] != "github dark"@[0]);
            assert("tokyo night"@[0] != "dracula"@[0]);
            assert("tokyo night"@[0] != "dracula"@[0]);
            assert("tokyo night"@[0] != "catppuccin"@[0]);
            assert("tokyo night"@[0] != "catppuccin mocha"@[0]);
            assert("tokyo night"@[0] != "nord"@[0]);
            assert("tokyo night"@[0] != "nord"@[0]);
            lemma_first_answering_at("tokyo night"@, 4);
        },
        PaletteId::Gruvbox => {
            assert("gruvbox"@[1] != "github-dark"@[1]);
            assert("gruvbox"@[1] != "github dark"@[1]);
            assert("gruvbox"@[0] != "dracula"@[0]);
            assert("gruvbox"@[0] != "dracula"@[0]);
            assert("gruvbox"@[0] != "catppuccin"@[0]);
            assert("gruvbox"@[0] != "catppuccin mocha"@[0]);
            assert("gruvbox"@[0] != "nord"@[0]);
            assert("gruvbox"@[0] != "nord"@[0]);
            assert("gruvbox"@[0] != "tokyo-night"@[0]);
            assert("gruvbox"@[0] != "tokyo night"@[0]);
            lemma_first_answering_at("gruvbox"@, 5);
            assert("gruvbox dark"@[1] != "github-dark"@[1]);
            assert("gruvbox dark"@[1] != "github dark"@[1]);
            assert("gruvbox dark"@[0] != "dracula"@[0]);
            assert("gruvbox dark"@[0] != "dracula"@[0]);
            assert("gruvbox dark"@[0] != "catppuccin"@[0]);
            assert("gruvbox dark"@[0] != "catppuccin mocha"@[0]);
            assert("gruvbox dark"@[0] != "nord"@[0]);
            assert("gruvbox dark"@[0] != "nord"@[0]);
            assert("gruvbox dark"@[0] != "tokyo-night"@[0]);
            assert("gruvbox dark"@[0] != "tokyo night"@[0]);
            lemma_first_answering_at("gruvbox dark"@, 5);
        },
        PaletteId::OneDark => {
            assert("one-dark"@[0] != "github-dark"@[0]);
            assert("one-dark"@[0] != "github dark"@[0]);
            assert("one-dark"@[0] != "dracula"@[0]);
            assert("one-dark"@[0] != "dracula"@[0]);
            assert("one-dark"@[0] != "catppuccin"@[0]);
            assert("one-dark"@[0] != "catppuccin mocha"@[0]);
            assert("one-dark"@[0] != "nord"@[0]);
            assert("one-dark"@[0] != "nord"@[0]);
            assert("one-dark"@[0] != "tokyo-night"@[0]);
            assert("one-dark"@[0] != "tokyo night"@[0]);
            assert("one-dark"@[0] != "gruvbox"@[0]);
            assert("one-dark"@[0] != "gruvbox dark"@[0]);
            lemma_first_answering_at("one-dark"@, 6);
            assert("one dark"@[0] != "github-dark"@[0]);
            assert("one dark"@[0] != "github dark"@[0]);
            assert("one dark"@[0] != "dracula"@[0]);
            assert("one dark"@[0] != "dracula"@[0]);
            assert("one dark"@[0] != "catppuccin"@[0]);
            assert("one dark"@[0] != "catppuccin mocha"@[0]);
            assert("one dark"@[0] != "nord"@[0]);
            assert("one dark"@[0] != "nord"@[0]);
            assert("one dark"@[0] != "tokyo-night"@[0]);
            assert("one dark"@[0] != "tokyo night"@[0]);
            assert("one dark"@[0] != "gruvbox"@[0]);
            assert("one dark"@[0] != "gruvbox dark"@[0]);
            lemma_first_answering_at("one dark"@, 6);
        },
        PaletteId::Solarized => {
            assert("solarized"@[0] != "github-dark"@[0]);
            assert("solarized"@[0] != "github dark"@[0]);
            assert("solarized"@[0] != "dracula"@[0]);
            assert("solarized"@[0] != "dracula"@[0]);
            assert("solarized"@[0] != "catppuccin"@[0]);
            assert("solarized"@[0] != "catppuccin mocha"@[0]);
            assert("solarized"@[0] != "nord"@[0]);
            assert("solarized"@[0] != "nord"@[0]);
            assert("solarized"@[0] != "tokyo-night"@[0]);
            assert("solarized"@[0] != "tokyo night"@[0]);
            assert("solarized"@[0] != "gruvbox"@[0]);
            assert("solarized"@[0] != "gruvbox dark"@[0]);
            assert("solarized"@[0] != "one-dark"@[0]);
            assert("solarized"@[0] != "one dark"@[0]);
            lemma_first_answering_at("solarized"@, 7);
            assert("solarized dark"@[0] != "github-dark"@[0]);
            assert("solarized dark"@[0] != "github dark"@[0]);
            assert("solarized dark"@[0] != "dracula"@[0]);
            assert("solarized dark"@[0] != "dracula"@[0]);
            assert("solarized dark"@[0] != "catppuccin"@[0]);
            assert("solarized dark"@[0] != "catppuccin mocha"@[0]);
            assert("solarized dark"@[0] != "nord"@[0]);
            assert("solarized dark"@[0] != "nord"@[0]);
            assert("solarized dark"@[0] != "tokyo-night"@[0]);
            assert("solarized dark"@[0] != "tokyo night"@[0]);
            assert("solarized dark"@[0] != "gruvbox"@[0]);
            assert("solarized dark"@[0] != "gruvbox dark"@[0]);
            assert("solarized dark"@[0] != "one-dark"@[0]);
            assert("solarized dark"@[0] != "one dark"@[0]);
            lemma_first_answering_at("solarized dark"@, 7);
        },
    }
}

proof fn lemma_lower_names()
    ensures
        lower_ascii("GitHub Dark"@) == "github dark"@,
        lower_ascii("Dracula"@) == "dracula"@,
        lower_ascii("Catppuccin Mocha"@) == "catppuccin mocha"@,
        lower_ascii("Nord"@) == "nord"@,
        lower_ascii("Tokyo Night"@) == "tokyo night"@,
        lower_ascii("Gruvbox Dark"@) == "gruvbox dark"@,
        lower_ascii("One Dark"@) == "one dark"@,
        lower_ascii("Solarized Dark"@) == "solarized dark"@,
{
    reveal_strlit("github-dark");
    reveal_strlit("dracula");
    reveal_strlit("catppuccin");
    reveal_strlit("nord");
    reveal_strlit("tokyo-night");
    reveal_strlit("gruvbox");
    reveal_strlit("one-dark");
    reveal_strlit("solarized");
    reveal_strlit("GitHub Dark");
    reveal_strlit("Dracula");
    reveal_strlit("Catppuccin Mocha");
    reveal_strlit("Nord");
    reveal_strlit("Tokyo Night");
    reveal_strlit("Gruvbox Dark");
    reveal_strlit("One Dark");
    reveal_strlit("Solarized Dark");
    reveal_strlit("github dark");
    reveal_strlit("dracula");
    reveal_strlit("catppuccin mocha");
    reveal_strlit("nord");
    reveal_strlit("tokyo night");
    reveal_strlit("gruvbox dark");
    reveal_strlit("one dark");
    reveal_strlit("solarized dark");
    assert(lower_ascii("GitHub Dark"@) =~= "github dark"@);
    assert(lower_ascii("Dracula"@) =~= "dracula"@);
    assert(lower_ascii("Catppuccin Mocha"@) =~= "catppuccin mocha"@);
    assert(lower_ascii("Nord"@) =~= "nord"@);
    assert(lower_ascii("Tokyo Night"@) =~= "tokyo night"@);
    assert(lower_ascii("Gruvbox Dark"@) =~= "gruvbox dark"@);
    assert(lower_ascii("One Dark"@) =~= "one dark"@);
    assert(lower_ascii("Solarized Dark"@) =~= "solarized dark"@);
}

/// The search stops at the first palette that answers.
proof fn lemma_first_answering_at(s: Seq<char>, k: int)
    requires
        0 <= k < 8,
        answers_to(palette_at(k), s),
        forall|j: int| 0 <= j < k ==> !answers_to(#[trigger] palette_at(j), s),
    ensures
        first_answering(s, 0) == Some(palette_at(k)),
{
    lemma_first_answering_from(s, 0, k);
}

proof fn lemma_first_answering_from(s: Seq<char>, from: int, k: int)
    requires
        0 <= from <= k < 8,
        answers_to(palette_at(k), s),
        forall|j: int| 0 <= j < k ==> !answers_to(#[trigger] palette_at(j), s),
    ensures
        first_answering(s, from) == Some(palette_at(k)),
    decreases k - from,
{
    if from < k {
        assert(!answers_to(palette_at(from), s));
        lemma_first_answering_from(s, from + 1, k);
    }
}

} // verus!

verus! {

proof fn lemma_trim_unchanged(s: Seq<char>)
    requires
        s.len() > 0,
        !crate::text::is_ws(s[0]),
        !crate::text::is_ws(s.last()),
    ensures
        trim(s) == s,
{
    assert(crate::text::leading_count(s, false) == 0);
    assert(s.skip(0) =~= s);
    assert(crate::text::trailing_count(s, false) == 0);
    assert(s.take(s.len() as int) =~= s);
}

proof fn lemma_key_plain(p: PaletteId)
    ensures
        palette_key(p).len() > 0,
        !crate::text::is_ws(palette_key(p)[0]),
        !crate::text::is_ws(palette_key(p).last()),
        all_ascii(palette_key(p)),
        lower_ascii(palette_key(p)) == palette_key(p),
{
    reveal_strlit("github-dark");
    reveal_strlit("dracula");
    reveal_strlit("catppuccin");
    reveal_strlit("nord");
    reveal_strlit("tokyo-night");
    reveal_strlit("gruvbox");
    reveal_strlit("one-dark");
    reveal_strlit("solarized");
    assert(lower_ascii(palette_key(p)) =~= palette_key(p));
}

proof fn lemma_name_plain(p: PaletteId)
    ensures
        palette_name(p).len() > 0,
        !crate::text::is_ws(palette_name(p)[0]),
        !crate::text::is_ws(palette_name(p).last()),
{
    reveal_strlit("GitHub Dark");
    reveal_strlit("Dracula");
    reveal_strlit("Catppuccin Mocha");
    reveal_strlit("Nord");
    reveal_strlit("Tokyo Night");
    reveal_strlit("Gruvbox Dark");
    reveal_strlit("One Dark");
    reveal_strlit("Solarized Dark");
}

/// Every palette is found again by its id and by its display name, as
/// `PaletteId::from_id` reads them.
pub proof fn law_from_id_round_trip(p: PaletteId)
    ensures
        all_ascii(trim(palette_key(p))),
        first_answering(lower_ascii(trim(palette_key(p))), 0) == Some(p),
        all_ascii(trim(palette_name(p))),
        first_answering(lower_ascii(trim(palette_name(p))), 0) == Some(p),
{
    lemma_key_plain(p);
    lemma_trim_unchanged(palette_key(p));
    lemma_name_plain(p);
    lemma_trim_unchanged(palette_name(p));
    lemma_names_ascii(p);
    law_names_select_palette(p);
}

/// Surrounding whitespace and ASCII case do not matter to
/// `PaletteId::from_id`: a text whose trimmed form is a palette's id or
/// display name in any ASCII case selects that palette.
pub proof fn law_from_id_ignores_space_and_case(p: PaletteId, s: Seq<char>)
    requires
        all_ascii(trim(s)),
        lower_ascii(trim(s)) == palette_key(p) || lower_ascii(trim(s)) == lower_ascii(palette_name(p)),
    ensures
        first_answering(lower_ascii(trim(s)), 0) == Some(p),
{
    law_names_select_palette(p);
}

/// A palette saved as its id is the one `Theme::load_saved` picks when it
/// reads that text back, whatever palette was current.
pub proof fn law_saved_theme_round_trip(p: PaletteId)
    ensures
        all_ascii(trim(trim(palette_key(p)))),
        first_answering(lower_ascii(trim(trim(palette_key(p)))), 0) == Some(p),
{
    lemma_key_plain(p);
    lemma_trim_unchanged(palette_key(p));
    law_names_select_palette(p);
}

} // verus!
