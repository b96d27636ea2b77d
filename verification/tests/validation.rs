use bevy_paths::{
    normalize_component, validate_component, validate_filled_path, validate_structural_path,
    PathRegistrationError, PathRegistryPlugin, PathValidationError,
};

#[test]
fn test_validation_logic_unit() {
    // Valid
    assert!(validate_structural_path("saves/data").is_ok());

    // Invalid Absolute
    assert!(validate_structural_path("/absolute").is_err());

    // Invalid Traversal
    assert!(validate_structural_path("../parent").is_err());
    assert!(validate_structural_path("saves/../hack").is_err());

    // Invalid Empty
    assert!(validate_structural_path("").is_err());
}

#[test]
fn test_component_validation() {
    // We expect explicit invalid chars to fail
    assert!(validate_component("bad*name").is_err());
    assert!(validate_component("bad|name").is_err());
    assert!(validate_component("bad?name").is_err());

    // Reserved windows names
    assert!(validate_component("CON").is_err());
    assert!(validate_component("lpt1").is_err());
}

#[test]
fn test_validation_logic() {
    let plugin = PathRegistryPlugin::new("S", "P", "A");

    // Valid path
    assert!(plugin.validate_and_normalize("saves/data").is_ok());

    // Invalid: Absolute
    assert!(plugin.validate_and_normalize("/absolute/path").is_err());
    assert!(plugin.validate_and_normalize("C:\\absolute\\path").is_err());

    // Invalid: Parent navigation
    assert!(plugin.validate_and_normalize("../parent").is_err());
    assert!(plugin.validate_and_normalize("saves/../hacked").is_err());

    // Invalid: Empty
    assert!(plugin.validate_and_normalize("").is_err());
    assert!(plugin.validate_and_normalize("   ").is_err());
}

#[test]
fn test_windows_validation_simulated() {
    let plugin = PathRegistryPlugin::new("S", "P", "A");

    // Invalid chars
    assert!(plugin.validate_and_normalize("file_with_asterisk_*.txt").is_err());
    assert!(plugin.validate_and_normalize("file_with_pipe_|.txt").is_err());
    assert!(plugin.validate_and_normalize("file_with_question_?.txt").is_err());

    // Reserved names
    assert!(plugin.validate_and_normalize("CON").is_err());
    assert!(plugin.validate_and_normalize("folder/PRN/file").is_err());
    assert!(plugin.validate_and_normalize("lpt1").is_err()); // Case insensitive check
}

#[test]
fn accepted_template_comes_back_trimmed() {
    assert_eq!(
        validate_structural_path("assets/textures/{name}.png"),
        Ok("assets/textures/{name}.png".to_string())
    );
    assert_eq!(
        validate_structural_path("  levels/{region}/dungeon_{id}.map \t\n"),
        Ok("levels/{region}/dungeon_{id}.map".to_string())
    );
    assert_eq!(
        validate_structural_path("\u{a0}\u{3000}saves/data\u{2003}"),
        Ok("saves/data".to_string())
    );
    assert_eq!(validate_structural_path("a"), Ok("a".to_string()));
}

#[test]
fn accepted_template_is_accepted_again_unchanged() {
    let once = validate_structural_path("  saves/{slot}/data.json  ").unwrap();
    let twice = validate_structural_path(&once).unwrap();
    assert_eq!(once, twice);
    assert_eq!(twice, "saves/{slot}/data.json");
}

#[test]
fn doubled_and_trailing_separators_hold_no_component() {
    assert_eq!(validate_structural_path("a//b"), Ok("a//b".to_string()));
    assert_eq!(validate_structural_path("a/b/"), Ok("a/b/".to_string()));
    let plugin = PathRegistryPlugin::new("S", "P", "A");
    assert_eq!(plugin.validate_and_normalize("a//b"), Ok("a/b".to_string()));
    assert_eq!(plugin.validate_and_normalize("a/b/"), Ok("a/b".to_string()));
    assert_eq!(plugin.validate_and_normalize(" saves/slot_1 "), Ok("saves/slot_1".to_string()));
}

#[test]
fn empty_path_is_refused() {
    assert_eq!(validate_structural_path(""), Err(PathValidationError::EmptyPath));
    assert_eq!(validate_structural_path("   "), Err(PathValidationError::EmptyPath));
    assert_eq!(validate_structural_path("\t\n\r"), Err(PathValidationError::EmptyPath));
    let plugin = PathRegistryPlugin::new("S", "P", "A");
    assert_eq!(plugin.validate_and_normalize(""), Err(PathRegistrationError::EmptyPath));
    assert_eq!(plugin.validate_and_normalize("   "), Err(PathRegistrationError::EmptyPath));
}

#[test]
fn leading_tilde_is_refused() {
    assert_eq!(validate_structural_path("~"), Err(PathValidationError::TildeNotAllowed));
    assert_eq!(validate_structural_path("~/file.txt"), Err(PathValidationError::TildeNotAllowed));
    assert_eq!(validate_structural_path("  ~user/x"), Err(PathValidationError::TildeNotAllowed));
    // The tilde rule speaks before the navigation rule.
    assert_eq!(validate_structural_path("~/../x"), Err(PathValidationError::TildeNotAllowed));
    // A tilde elsewhere is an ordinary character.
    assert_eq!(validate_structural_path("a/~b"), Ok("a/~b".to_string()));
    let plugin = PathRegistryPlugin::new("S", "P", "A");
    assert_eq!(plugin.validate_and_normalize("~/x"), Err(PathRegistrationError::TildeNotAllowed));
}

#[test]
fn absolute_path_is_refused() {
    assert_eq!(
        validate_structural_path("/absolute/path"),
        Err(PathValidationError::AbsolutePathNotAllowed)
    );
    assert_eq!(validate_structural_path("/"), Err(PathValidationError::AbsolutePathNotAllowed));
    assert_eq!(
        validate_structural_path("  /etc/passwd"),
        Err(PathValidationError::AbsolutePathNotAllowed)
    );
    // The absolute rule speaks before the navigation rule.
    assert_eq!(
        validate_structural_path("/../x"),
        Err(PathValidationError::AbsolutePathNotAllowed)
    );
    assert_eq!(
        validate_structural_path("C:/games/{id}"),
        Err(PathValidationError::AbsolutePathNotAllowed)
    );
    assert_eq!(
        validate_structural_path("z:{id}"),
        Err(PathValidationError::AbsolutePathNotAllowed)
    );
    let plugin = PathRegistryPlugin::new("S", "P", "A");
    assert_eq!(
        plugin.validate_and_normalize("/absolute/path"),
        Err(PathRegistrationError::AbsolutePathNotAllowed)
    );
    assert_eq!(
        plugin.validate_and_normalize("C:\\absolute\\path"),
        Err(PathRegistrationError::AbsolutePathNotAllowed)
    );
}

#[test]
fn navigation_component_is_refused_wherever_it_stands() {
    let refused = Err(PathValidationError::RelativeNavigationNotAllowed);
    assert_eq!(validate_structural_path("saves/../hack"), refused);
    assert_eq!(validate_structural_path("../parent"), refused);
    assert_eq!(validate_structural_path("child/.."), refused);
    assert_eq!(validate_structural_path(".."), refused);
    assert_eq!(validate_structural_path("."), refused);
    assert_eq!(validate_structural_path("./a"), refused);
    assert_eq!(validate_structural_path("a/./b"), refused);
    assert_eq!(validate_structural_path("a/{x}/../b"), refused);
    // The navigation rule speaks before the component rules.
    assert_eq!(validate_structural_path("a*b/../c"), refused);
    let plugin = PathRegistryPlugin::new("S", "P", "A");
    assert_eq!(
        plugin.validate_and_normalize("saves/../hacked"),
        Err(PathRegistrationError::RelativeNavigationNotAllowed)
    );
}

#[test]
fn dots_inside_a_name_are_no_navigation() {
    assert_eq!(validate_structural_path("a..b"), Ok("a..b".to_string()));
    assert_eq!(validate_structural_path("..a"), Ok("..a".to_string()));
    assert_eq!(validate_structural_path(".hidden/file"), Ok(".hidden/file".to_string()));
    assert_eq!(
        validate_structural_path("..."),
        Err(PathValidationError::InvalidComponent("...".to_string()))
    );
}

#[test]
fn forbidden_characters_are_refused_by_name() {
    for c in ['<', '>', '"', ':', '|', '?', '*'] {
        let name = format!("bad{}name", c);
        assert_eq!(
            validate_component(&name),
            Err(PathValidationError::InvalidComponent(name.clone()))
        );
        let at_start = format!("{}x", c);
        assert_eq!(
            validate_component(&at_start),
            Err(PathValidationError::InvalidComponent(at_start.clone()))
        );
        let at_end = format!("x{}", c);
        assert_eq!(
            validate_component(&at_end),
            Err(PathValidationError::InvalidComponent(at_end.clone()))
        );
        let path = format!("ok/{}/file", name);
        assert_eq!(
            validate_structural_path(&path),
            Err(PathValidationError::InvalidComponent(name.clone()))
        );
    }
    assert_eq!(validate_component("textures"), Ok(()));
    assert_eq!(validate_component("with space and-dash_1.png"), Ok(()));
    assert_eq!(validate_component("{name}"), Ok(()));
    assert_eq!(validate_component(""), Ok(()));
}

#[test]
fn reserved_names_are_refused_in_any_case() {
    let reserved = [
        "CON", "PRN", "AUX", "NUL", "COM1", "COM2", "COM3", "COM4", "COM5", "COM6", "COM7", "COM8",
        "COM9", "LPT1", "LPT2", "LPT3", "LPT4", "LPT5", "LPT6", "LPT7", "LPT8", "LPT9",
    ];
    for name in reserved {
        assert_eq!(
            validate_component(name),
            Err(PathValidationError::InvalidComponent(name.to_string()))
        );
        let lower = name.to_lowercase();
        assert_eq!(
            validate_component(&lower),
            Err(PathValidationError::InvalidComponent(lower.clone()))
        );
    }
    assert!(validate_component("con").is_err());
    assert!(validate_component("Con").is_err());
    assert!(validate_component("cOn").is_err());
    assert!(validate_component("lPt7").is_err());
    assert!(validate_structural_path("folder/prn/file").is_err());
}

#[test]
fn names_that_only_resemble_reserved_names_are_accepted() {
    assert_eq!(validate_component("CONSOLE"), Ok(()));
    assert_eq!(validate_component("CO"), Ok(()));
    assert_eq!(validate_component("COM"), Ok(()));
    assert_eq!(validate_component("COM0"), Ok(()));
    assert_eq!(validate_component("COM10"), Ok(()));
    assert_eq!(validate_component("LPT0"), Ok(()));
    assert_eq!(validate_component("LPTA"), Ok(()));
    assert_eq!(validate_component("NULL"), Ok(()));
    assert_eq!(validate_component("AUX1"), Ok(()));
    assert_eq!(validate_component("CON.txt"), Ok(()));
    assert_eq!(validate_component("_con"), Ok(()));
    assert_eq!(validate_structural_path("CONSOLE"), Ok("CONSOLE".to_string()));
}

#[test]
fn trailing_space_or_dot_is_refused() {
    assert_eq!(
        validate_component("file."),
        Err(PathValidationError::InvalidComponent("file.".to_string()))
    );
    assert_eq!(
        validate_component("file "),
        Err(PathValidationError::InvalidComponent("file ".to_string()))
    );
    assert_eq!(validate_component(" "), Err(PathValidationError::InvalidComponent(" ".to_string())));
    assert_eq!(validate_component("file .txt"), Ok(()));
    assert_eq!(validate_component(" file"), Ok(()));
    assert_eq!(
        validate_structural_path("dir /file"),
        Err(PathValidationError::InvalidComponent("dir ".to_string()))
    );
    assert_eq!(
        validate_structural_path("dir./file"),
        Err(PathValidationError::InvalidComponent("dir.".to_string()))
    );
    // White space at the end of the whole path is trimmed before any rule.
    assert_eq!(validate_structural_path("dir/file "), Ok("dir/file".to_string()));
}

#[test]
fn first_refused_component_is_reported() {
    assert_eq!(
        validate_structural_path("a/b*/c?/d"),
        Err(PathValidationError::InvalidComponent("b*".to_string()))
    );
    assert_eq!(
        validate_structural_path("{x}*/con/y|"),
        Err(PathValidationError::InvalidComponent("con".to_string()))
    );
}

#[test]
fn placeholder_components_are_excused_in_templates_only() {
    assert_eq!(validate_structural_path("assets/{name}*.png"), Ok("assets/{name}*.png".to_string()));
    assert_eq!(validate_structural_path("{a}:{b}"), Ok("{a}:{b}".to_string()));
    assert_eq!(validate_structural_path("x/{name}."), Ok("x/{name}.".to_string()));
    let plugin = PathRegistryPlugin::new("S", "P", "A");
    assert_eq!(
        plugin.validate_and_normalize("assets/{name}*.png"),
        Err(PathRegistrationError::InvalidComponent("{name}*.png".to_string()))
    );
    assert_eq!(
        plugin.validate_and_normalize("x/{name}."),
        Err(PathRegistrationError::InvalidComponent("{name}.".to_string()))
    );
    assert_eq!(plugin.validate_and_normalize("x/{name}"), Ok("x/{name}".to_string()));
}

#[test]
fn normalize_component_composes_characters() {
    // `e` followed by a combining acute accent becomes the single letter.
    assert_eq!(normalize_component("e\u{301}"), "\u{e9}");
    assert_eq!(normalize_component("cafe\u{301}"), "caf\u{e9}");
    assert_eq!(normalize_component("\u{e9}"), "\u{e9}");
    assert_eq!(normalize_component("plain_ascii-1.txt"), "plain_ascii-1.txt");
    assert_eq!(normalize_component(""), "");
    // The angstrom sign is a singleton: it normalizes to the letter.
    assert_eq!(normalize_component("\u{212b}"), "\u{c5}");
}

#[test]
fn fixed_paths_are_stored_in_normal_form() {
    let plugin = PathRegistryPlugin::new("S", "P", "A");
    assert_eq!(
        plugin.validate_and_normalize("cafe\u{301}/menu"),
        Ok("caf\u{e9}/menu".to_string())
    );
    // A template keeps its text as written.
    assert_eq!(
        validate_structural_path("cafe\u{301}/{menu}"),
        Ok("cafe\u{301}/{menu}".to_string())
    );
}

#[test]
fn components_are_judged_in_normal_form() {
    // `<` followed by a combining long solidus overlay composes to the single
    // character NOT LESS-THAN, which is no forbidden character.
    assert!(validate_component("<\u{338}").is_err());
    assert_eq!(normalize_component("<\u{338}"), "\u{226e}");
    assert_eq!(validate_structural_path("a/<\u{338}/b"), Ok("a/<\u{338}/b".to_string()));
    let plugin = PathRegistryPlugin::new("S", "P", "A");
    assert_eq!(plugin.validate_and_normalize("a/<\u{338}/b"), Ok("a/\u{226e}/b".to_string()));
}

#[test]
fn refused_component_is_reported_as_written() {
    // The component is judged in normal form and named as it stands in the path.
    assert_eq!(
        validate_structural_path("menu/cafe\u{301}*"),
        Err(PathValidationError::InvalidComponent("cafe\u{301}*".to_string()))
    );
    let plugin = PathRegistryPlugin::new("S", "P", "A");
    assert_eq!(
        plugin.validate_and_normalize("menu/cafe\u{301}?"),
        Err(PathRegistrationError::InvalidComponent("cafe\u{301}?".to_string()))
    );
}

#[test]
fn exactly_white_space_is_trimmed() {
    for code in 0u32..0x3100 {
        let Some(c) = char::from_u32(code) else { continue };
        let padded = format!("{}a{}", c, c);
        let trimmed_to_a = validate_structural_path(&padded) == Ok("a".to_string());
        assert_eq!(trimmed_to_a, c.is_whitespace(), "U+{:04X}", code);
        assert_eq!(padded.trim() == "a", c.is_whitespace(), "U+{:04X}", code);
    }
}

#[test]
fn reserved_names_match_in_any_letter_case_and_no_other() {
    let reserved = [
        "CON", "PRN", "AUX", "NUL", "COM1", "COM2", "COM3", "COM4", "COM5", "COM6", "COM7", "COM8",
        "COM9", "LPT1", "LPT2", "LPT3", "LPT4", "LPT5", "LPT6", "LPT7", "LPT8", "LPT9",
    ];
    // A name with one character exchanged is refused exactly when its upper
    // case form is a reserved name.
    for code in (0u32..0x3100).chain(0xFB00..0xFB10).chain(0xFF00..0xFF60) {
        let Some(c) = char::from_u32(code) else { continue };
        if ['<', '>', '"', ':', '|', '?', '*', ' ', '.'].contains(&c) {
            continue;
        }
        for stem in ["CON", "lpt1", "Com9", "nul"] {
            for at in 0..stem.len() {
                let mut name = String::new();
                name.push_str(&stem[..at]);
                name.push(c);
                name.push_str(&stem[at + 1..]);
                let upper = name.to_uppercase();
                let expected = reserved.contains(&upper.as_str());
                assert_eq!(validate_component(&name).is_err(), expected, "{:?}", name);
            }
        }
    }
}

#[test]
fn filled_path_is_checked_in_every_component() {
    assert_eq!(validate_filled_path("  levels/dungeon_1/map.dat "), Ok("levels/dungeon_1/map.dat".to_string()));
    assert_eq!(validate_filled_path("levels/{id}/map.dat"), Ok("levels/{id}/map.dat".to_string()));
    assert_eq!(
        validate_filled_path("assets/{name}*.png"),
        Err(PathValidationError::InvalidComponent("{name}*.png".to_string()))
    );
    assert_eq!(
        validate_filled_path("{a}:{b}"),
        Err(PathValidationError::InvalidComponent("{a}:{b}".to_string()))
    );
    assert_eq!(validate_filled_path(" "), Err(PathValidationError::EmptyPath));
    assert_eq!(validate_filled_path("~/x"), Err(PathValidationError::TildeNotAllowed));
    assert_eq!(validate_filled_path("/x"), Err(PathValidationError::AbsolutePathNotAllowed));
    assert_eq!(validate_filled_path("c:x"), Err(PathValidationError::AbsolutePathNotAllowed));
    assert_eq!(
        validate_filled_path("a/../b"),
        Err(PathValidationError::RelativeNavigationNotAllowed)
    );
    assert_eq!(
        validate_filled_path("a/con/b"),
        Err(PathValidationError::InvalidComponent("con".to_string()))
    );
}

#[test]
fn backslash_is_an_ordinary_character() {
    // Only `/` separates, anchors and bounds a `..`; a backslash does none of these.
    assert_eq!(validate_structural_path("a\\b"), Ok("a\\b".to_string()));
    assert_eq!(validate_structural_path("\\server"), Ok("\\server".to_string()));
    assert_eq!(validate_structural_path("a\\..\\b"), Ok("a\\..\\b".to_string()));
}
