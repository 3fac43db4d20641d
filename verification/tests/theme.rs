use noir::theme::{kind_of_file, FileKind, Palette, PaletteId, Theme, PALETTE_COUNT};

#[test]
fn ids_round_trip() {
    for (i, id) in PaletteId::all().into_iter().enumerate() {
        assert_eq!(id.index(), i);
        assert_eq!(PaletteId::from_index(i), id);
        assert_eq!(PaletteId::from_id(id.id()), Some(id));
    }
    assert_eq!(PALETTE_COUNT, 8);
    assert_eq!(PaletteId::from_index(9), PaletteId::Dracula);
}

#[test]
fn names_and_aliases() {
    assert_eq!(PaletteId::TokyoNight.name(), "Tokyo Night");
    assert_eq!(PaletteId::TokyoNight.id(), "tokyo-night");
    assert_eq!(PaletteId::from_id(" Tokyo Night "), Some(PaletteId::TokyoNight));
    assert_eq!(PaletteId::from_id("GITHUB-DARK"), Some(PaletteId::GitHubDark));
    assert_eq!(PaletteId::from_id("catppuccin mocha"), Some(PaletteId::Catppuccin));
    assert_eq!(PaletteId::from_id("github"), None);
}

#[test]
fn cycle_wraps_and_saved_setting_loads() {
    let mut t = Theme::new();
    assert_eq!(t.id(), PaletteId::GitHubDark);
    t.set(PaletteId::Solarized);
    assert_eq!(t.cycle(), PaletteId::GitHubDark);
    t.load_saved(Some("  dracula\n"));
    assert_eq!(t.id(), PaletteId::Dracula);
    t.load_saved(Some("unknown"));
    assert_eq!(t.id(), PaletteId::Dracula);
    t.load_saved(None);
    assert_eq!(t.id(), PaletteId::Dracula);
}

#[test]
fn file_kinds() {
    assert_eq!(kind_of_file("main.RS"), FileKind::Rs);
    assert_eq!(kind_of_file("app.test.ts"), FileKind::Ts);
    assert_eq!(kind_of_file("app.test.txt"), FileKind::Test);
    assert_eq!(kind_of_file("Dockerfile"), FileKind::Docker);
    assert_eq!(kind_of_file("Cargo.lock"), FileKind::Lock);
    assert_eq!(kind_of_file("notes"), FileKind::Plain);
}

#[test]
fn file_colour_follows_palette() {
    let t = Theme::new();
    let p = Palette::github_dark();
    assert_eq!(t.file_color("x.rs"), p.ft_rs);
    assert_eq!(t.file_color("x.unknown"), p.file);
}
