use zsh_infinite::args::{PromptType, ThemeCommands};
use zsh_infinite::utils::paths::{get_install_paths, InstallPaths, ProjectDirs};
use zsh_infinite::zmod::args::{Commands as ZmodCommands, ZmodAction, ZmodArgs};
use zsh_infinite::zsh::command::{Color, Commands, GitStatusOptions};
use zsh_infinite::zsh::prompt::left::is_countable;
use zsh_infinite::zsh::prompt::{
    PromptConnection, PromptCurveLine, PromptSeparation, PromptSeparationBox, PromptSeparationLine,
};
use zsh_infinite::zsh::seq::NamedColor;
use zsh_infinite::zsh::theme::color_scheme::{AccentColor, AccentWhich, PromptColorScheme};
use zsh_infinite::zsh::theme::config_ui::{
    display_named_color, format_hex, prompt_for_named_color, prompt_for_rgb_color,
};
use zsh_infinite::zsh::theme::manager::{get_theme_file_path, load_theme, LoadOutcome};
use zsh_infinite::zsh::theme::named_color_serde::{
    deserialize_from_str, parse_named_color, serialize, ColorParseError,
};
use zsh_infinite::text::IntErrorKind;
use zsh_infinite::zsh::theme::prompt_theme::{
    AccentWhich as LineAccent, PromptContent, PromptContents, PromptSegmentSeparators, PromptTheme,
};
use std::cmp::Ordering;

fn all_colors() -> Vec<(NamedColor, &'static str)> {
    vec![
        (NamedColor::Black, "Black"),
        (NamedColor::Red, "Red"),
        (NamedColor::Green, "Green"),
        (NamedColor::Yellow, "Yellow"),
        (NamedColor::Blue, "Blue"),
        (NamedColor::Magenta, "Magenta"),
        (NamedColor::Cyan, "Cyan"),
        (NamedColor::White, "White"),
        (NamedColor::LightBlack, "LightBlack"),
        (NamedColor::LightRed, "LightRed"),
        (NamedColor::LightGreen, "LightGreen"),
        (NamedColor::LightYellow, "LightYellow"),
        (NamedColor::LightBlue, "LightBlue"),
        (NamedColor::LightMagenta, "LightMagenta"),
        (NamedColor::LightCyan, "LightCyan"),
        (NamedColor::LightWhite, "LightWhite"),
        (NamedColor::Code256(0), "Code256(0)"),
        (NamedColor::Code256(255), "Code256(255)"),
        (NamedColor::FullColor((0, 0, 0)), "FullColor(0,0,0)"),
        (NamedColor::FullColor((255, 128, 7)), "FullColor(255,128,7)"),
    ]
}

#[test]
fn colours_are_written_and_read_back() {
    for (color, text) in all_colors() {
        assert_eq!(serialize(&color), text);
        assert_eq!(parse_named_color(text), Ok(color));
        assert_eq!(deserialize_from_str(text), Ok(color));
        assert_eq!(format!("{:?}", color).replace(", ", ",").replace("((", "(").replace("))", ")"), text);
    }
}

#[test]
fn colours_allow_white_space_round_the_channels() {
    assert_eq!(parse_named_color("FullColor( 1 , 2,\t3 )"), Ok(NamedColor::FullColor((1, 2, 3))));
    assert_eq!(parse_named_color("FullColor(+1,02,003)"), Ok(NamedColor::FullColor((1, 2, 3))));
    assert_eq!(parse_named_color("Code256(+7)"), Ok(NamedColor::Code256(7)));
    assert_eq!(parse_named_color("Code256( 7)"), Err(ColorParseError::Code256(IntErrorKind::InvalidDigit)));
}

#[test]
fn each_way_not_to_be_a_colour() {
    let cases = vec![
        ("", ColorParseError::Unknown),
        ("black", ColorParseError::Unknown),
        ("Black ", ColorParseError::Unknown),
        ("Code256", ColorParseError::Unknown),
        ("Code256(", ColorParseError::Unknown),
        ("Code256(1", ColorParseError::Unknown),
        ("#ff0000", ColorParseError::Unknown),
        ("Code256()", ColorParseError::Code256(IntErrorKind::Empty)),
        ("Code256(x)", ColorParseError::Code256(IntErrorKind::InvalidDigit)),
        ("Code256(-1)", ColorParseError::Code256(IntErrorKind::InvalidDigit)),
        ("Code256(256)", ColorParseError::Code256(IntErrorKind::PosOverflow)),
        ("FullColor()", ColorParseError::FullColorParts),
        ("FullColor(1,2)", ColorParseError::FullColorParts),
        ("FullColor(1,2,3,4)", ColorParseError::FullColorParts),
        ("FullColor(,2,3)", ColorParseError::FullColorRed(IntErrorKind::Empty)),
        ("FullColor(r,2,3)", ColorParseError::FullColorRed(IntErrorKind::InvalidDigit)),
        ("FullColor(256,x,3)", ColorParseError::FullColorRed(IntErrorKind::PosOverflow)),
        ("FullColor(1, ,3)", ColorParseError::FullColorGreen(IntErrorKind::Empty)),
        ("FullColor(1,300,x)", ColorParseError::FullColorGreen(IntErrorKind::PosOverflow)),
        ("FullColor(1,2,)", ColorParseError::FullColorBlue(IntErrorKind::Empty)),
        ("FullColor(1,2,3.0)", ColorParseError::FullColorBlue(IntErrorKind::InvalidDigit)),
        ("FullColor(1,2,1000)", ColorParseError::FullColorBlue(IntErrorKind::PosOverflow)),
    ];
    for (text, error) in cases {
        assert_eq!(parse_named_color(text), Err(error), "{:?}", text);
        assert_eq!(deserialize_from_str(text), Err(error.message(text)), "{:?}", text);
    }
}

#[test]
fn what_is_said_of_a_text_that_is_no_colour() {
    assert_eq!(
        deserialize_from_str("Code256(x)"),
        Err("Invalid Code256 format: invalid digit found in string".to_string())
    );
    assert_eq!(
        deserialize_from_str("Code256()"),
        Err("Invalid Code256 format: cannot parse integer from empty string".to_string())
    );
    assert_eq!(
        deserialize_from_str("FullColor(256,0,0)"),
        Err("Invalid FullColor format (R): number too large to fit in target type".to_string())
    );
    assert_eq!(
        deserialize_from_str("FullColor(0,g,0)"),
        Err("Invalid FullColor format (G): invalid digit found in string".to_string())
    );
    assert_eq!(
        deserialize_from_str("FullColor(0,0,)"),
        Err("Invalid FullColor format (B): cannot parse integer from empty string".to_string())
    );
    assert_eq!(
        deserialize_from_str("FullColor(1,2)"),
        Err("Invalid FullColor format: FullColor(1,2). Expected FullColor(r,g,b)".to_string())
    );
    assert_eq!(
        deserialize_from_str("Pink"),
        Err("Unknown NamedColor variant or invalid format: Pink".to_string())
    );
}

#[test]
fn editor_shows_and_takes_colours() {
    assert_eq!(display_named_color(None), "None");
    assert_eq!(display_named_color(Some(&NamedColor::LightBlue)), "LightBlue");
    assert_eq!(display_named_color(Some(&NamedColor::Code256(9))), "Code256(9)");
    assert_eq!(display_named_color(Some(&NamedColor::FullColor((0, 171, 255)))), "#00ABFF");
    assert_eq!(format_hex((1, 16, 254)), "#0110FE");
    let red = NamedColor::Red;
    assert_eq!(prompt_for_named_color("", Some(&red)), None);
    assert_eq!(prompt_for_named_color("None", Some(&red)), None);
    assert_eq!(prompt_for_named_color("nOnE", Some(&red)), None);
    assert_eq!(prompt_for_named_color("Blue", Some(&red)), Some(NamedColor::Blue));
    assert_eq!(prompt_for_named_color("Code256(3)", None), Some(NamedColor::Code256(3)));
    assert_eq!(prompt_for_named_color("blue", Some(&red)), Some(NamedColor::Red));
    assert_eq!(prompt_for_named_color("#00ABFF", Some(&red)), Some(NamedColor::Red));
    assert_eq!(prompt_for_named_color("nonsense", None), None);
    assert_eq!(prompt_for_named_color("Nones", Some(&red)), Some(NamedColor::Red));
}

#[test]
fn editor_takes_hexadecimal_colours() {
    let default = (1, 2, 3);
    assert_eq!(prompt_for_rgb_color("#00ABFF", default), (0, 171, 255));
    assert_eq!(prompt_for_rgb_color("#00abff", default), (0, 171, 255));
    assert_eq!(prompt_for_rgb_color("#+10203", default), (1, 2, 3));
    assert_eq!(prompt_for_rgb_color("#+a0b0c", (9, 9, 9)), (10, 11, 12));
    assert_eq!(prompt_for_rgb_color("00ABFF", default), default);
    assert_eq!(prompt_for_rgb_color("#00ABF", default), default);
    assert_eq!(prompt_for_rgb_color("#00ABFFF", default), default);
    assert_eq!(prompt_for_rgb_color("#00ABFG", default), default);
    assert_eq!(prompt_for_rgb_color("#-0ABFF", default), default);
    assert_eq!(prompt_for_rgb_color("", default), default);
    assert_eq!(prompt_for_rgb_color("#\u{e9}0ABFF", default), default);
}

#[test]
fn default_theme_has_one_plain_line() {
    let theme = PromptTheme::default();
    assert_eq!(theme.prompt_contents_list.len(), 1);
    assert_eq!(theme.transient_color, PromptColorScheme::default());
    let line = &theme.prompt_contents_list[0];
    assert_eq!(line, &PromptContents::default());
    let shell = |cmd: &str| PromptContent::Shell {
        cmd: cmd.to_string(),
        args: Vec::new(),
        envs: Vec::new(),
        fg: None,
        bg: None,
    };
    assert_eq!(line.left, vec![shell("whoami"), shell("hostname")]);
    assert_eq!(
        line.right,
        vec![
            PromptContent::BuildIn { command: Commands::Pwd { color: None } },
            PromptContent::BuildIn {
                command: Commands::Cmd {
                    last_status: "$LAST_STATUS".to_string(),
                    last_command_executed: None,
                    color: None,
                },
            },
        ]
    );
    assert_eq!(line.connection, PromptConnection::Blank);
    assert_eq!(line.left_segment_separators, PromptSegmentSeparators::default());
    assert_eq!(line.right_segment_separators, PromptSegmentSeparators::default());
    assert_eq!(line.accent_which, LineAccent::ForeGround);
    assert!(is_countable(&theme));
}

#[test]
fn default_values() {
    assert_eq!(
        PromptColorScheme::default(),
        PromptColorScheme {
            bg: NamedColor::Black,
            fg: NamedColor::White,
            pc: NamedColor::Cyan,
            sc: NamedColor::LightBlack,
            accent: AccentColor::Single(NamedColor::LightBlack),
            accent_which: AccentWhich::ForeGround,
        }
    );
    assert_eq!(
        PromptSegmentSeparators::default(),
        PromptSegmentSeparators {
            start_separator: PromptSeparation::Sharp,
            mid_separator: PromptSeparation::Sharp,
            end_separator: PromptSeparation::Sharp,
            edge_cap: true,
            bold_separation: true,
        }
    );
    assert_eq!(AccentWhich::default(), AccentWhich::ForeGround);
    assert_eq!(LineAccent::default(), LineAccent::ForeGround);
    assert_eq!(PromptConnection::default(), PromptConnection::Blank);
    assert_eq!(PromptSeparation::default(), PromptSeparation::Sharp);
}

#[test]
fn infinite_theme_has_a_rainbow_line() {
    let theme = PromptTheme::infinite();
    assert_eq!(theme.prompt_contents_list, vec![PromptContents::infinite()]);
    assert_eq!(theme.transient_color, PromptColorScheme::default());
    let line = PromptContents::infinite();
    assert_eq!(
        line.left,
        vec![
            PromptContent::BuildIn { command: Commands::Os { color: Some("white".to_string()) } },
            PromptContent::BuildIn { command: Commands::Pwd { color: Some("#00FFFF".to_string()) } },
        ]
    );
    assert_eq!(line.right.len(), 3);
    assert_eq!(
        line.right[0],
        PromptContent::BuildIn {
            command: Commands::Cmd {
                last_status: "$LAST_STATUS".to_string(),
                last_command_executed: Some("$LAST_COMMAND_EXECUTED".to_string()),
                color: None,
            },
        }
    );
    assert_eq!(
        line.right[1],
        PromptContent::BuildIn {
            command: Commands::Git {
                path: None,
                options: GitStatusOptions {
                    default_color_option: None,
                    git_icon_color_option: Some(Color::Blue),
                    branch_color_option: Some(Color::White),
                    staged_color_option: Some(Color::Cyan),
                    unstaged_color_option: Some(Color::Red),
                    untracked_color_option: Some(Color::Rgb(255, 0, 112)),
                    conflict_color_option: Some(Color::Magenta),
                    stashed_color_option: Some(Color::Black),
                    clean_color_option: Some(Color::White),
                    ahead_color_option: Some(Color::Green),
                    behind_color_option: Some(Color::Red),
                },
            },
        }
    );
    assert_eq!(
        line.right[2],
        PromptContent::BuildIn { command: Commands::Time { color: Some("green".to_string()) } }
    );
    assert_eq!(
        line.color,
        PromptColorScheme {
            bg: NamedColor::FullColor((32, 32, 32)),
            fg: NamedColor::White,
            pc: NamedColor::Red,
            sc: NamedColor::LightBlack,
            accent: AccentColor::Rainbow(NamedColor::FullColor((0, 255, 255))),
            accent_which: AccentWhich::ForeGround,
        }
    );
    assert_eq!(line.connection, PromptConnection::Line);
    assert_eq!(line.left_segment_separators.start_separator, PromptSeparation::Round);
    assert_eq!(line.left_segment_separators.mid_separator, PromptSeparation::Slash);
    assert_eq!(line.left_segment_separators.end_separator, PromptSeparation::Sharp);
    assert_eq!(line.right_segment_separators.start_separator, PromptSeparation::Sharp);
    assert_eq!(line.right_segment_separators.mid_separator, PromptSeparation::BackSlash);
    assert_eq!(line.right_segment_separators.end_separator, PromptSeparation::Round);
    assert!(line.left_segment_separators.edge_cap && line.left_segment_separators.bold_separation);
    assert!(line.right_segment_separators.edge_cap && line.right_segment_separators.bold_separation);
    assert_eq!(line.accent_which, LineAccent::ForeGround);
}

#[test]
fn a_theme_is_chosen_by_name() {
    assert_eq!(zsh_infinite::zsh::theme::set(ThemeCommands::Default), PromptTheme::default());
    assert_eq!(zsh_infinite::zsh::theme::set(ThemeCommands::Infinite), PromptTheme::infinite());
}

#[test]
fn theme_in_use_falls_back_to_the_default() {
    assert_eq!(get_theme_file_path(Some("/home/ann/.config/zsh-infinite")),
        Some("/home/ann/.config/zsh-infinite/theme.yaml".to_string()));
    assert_eq!(get_theme_file_path(None), None);
    let loaded = load_theme(LoadOutcome::Loaded(PromptTheme::infinite()));
    assert_eq!(loaded.theme, PromptTheme::infinite());
    assert!(!loaded.save);
    let missing = load_theme(LoadOutcome::Missing);
    assert_eq!(missing.theme, PromptTheme::default());
    assert!(missing.save);
    for outcome in [LoadOutcome::NoDirectories, LoadOutcome::Unreadable, LoadOutcome::Invalid] {
        let loaded = load_theme(outcome);
        assert_eq!(loaded.theme, PromptTheme::default());
        assert!(!loaded.save);
    }
}

#[test]
fn connection_glyphs() {
    let glyphs = vec![
        (PromptConnection::Blank, " "),
        (PromptConnection::Line, "\u{2500}"),
        (PromptConnection::Double, "\u{2550}"),
        (PromptConnection::Bold, "\u{2501}"),
        (PromptConnection::Dashed, "\u{254c}"),
        (PromptConnection::Dotted, "\u{2504}"),
        (PromptConnection::Dot, "\u{b7}"),
        (PromptConnection::Bullet, "\u{2022}"),
        (PromptConnection::Wave, "~"),
        (PromptConnection::ZigZag, "\u{2248}"),
        (PromptConnection::Bar, "\u{2588}"),
        (PromptConnection::Gradient, "\u{2592}"),
    ];
    for (connection, glyph) in glyphs {
        assert_eq!(connection.glyph(), glyph);
        assert_eq!(connection.to_string(), glyph);
    }
}

fn frame(parts: [&str; 8]) -> PromptCurveLine {
    PromptCurveLine {
        top_left: parts[0].to_string(),
        top_right: parts[1].to_string(),
        bottom_left: parts[2].to_string(),
        bottom_right: parts[3].to_string(),
        horizontal: parts[4].to_string(),
        vertical: parts[5].to_string(),
        cross_left: parts[6].to_string(),
        cross_right: parts[7].to_string(),
    }
}

#[test]
fn frames_go_with_their_connection() {
    let rounded = |h: &str| frame(["\u{256d}", "\u{256e}", "\u{2570}", "\u{256f}", h, "\u{2502}", "\u{251c}", "\u{2524}"]);
    let square = frame(["\u{250c}", "\u{2510}", "\u{2514}", "\u{2518}", "\u{2500}", "\u{2502}", "\u{251c}", "\u{2524}"]);
    assert_eq!(PromptCurveLine::default(), rounded("\u{2500}"));
    assert_eq!(
        PromptCurveLine::from(PromptConnection::Double),
        frame(["\u{2554}", "\u{2557}", "\u{255a}", "\u{255d}", "\u{2550}", "\u{2551}", "\u{2560}", "\u{2563}"])
    );
    assert_eq!(
        PromptCurveLine::from(PromptConnection::Bold),
        frame(["\u{250f}", "\u{2513}", "\u{2517}", "\u{251b}", "\u{2501}", "\u{2503}", "\u{2523}", "\u{252b}"])
    );
    assert_eq!(PromptCurveLine::from(PromptConnection::Line), square);
    assert_eq!(PromptCurveLine::from(PromptConnection::Dashed), square);
    assert_eq!(PromptCurveLine::from(PromptConnection::Dotted), square);
    assert_eq!(
        PromptCurveLine::from(PromptConnection::Bar),
        frame(["\u{e0ba}", "\u{e0b8}", "\u{e0be}", "\u{e0bc}", "\u{2588}", "\u{2588}", "\u{2588}", "\u{2588}"])
    );
    assert_eq!(PromptCurveLine::from(PromptConnection::Blank), rounded(" "));
    assert_eq!(PromptCurveLine::from(PromptConnection::Dot), rounded("\u{b7}"));
    assert_eq!(PromptCurveLine::from(PromptConnection::Bullet), rounded("\u{2022}"));
    assert_eq!(PromptCurveLine::from(PromptConnection::Wave), rounded("~"));
    assert_eq!(PromptCurveLine::from(PromptConnection::ZigZag), rounded("\u{2248}"));
    assert_eq!(PromptCurveLine::from(PromptConnection::Gradient), rounded("\u{2592}"));
}

#[test]
fn separation_glyphs() {
    let table = vec![
        (PromptSeparation::Block, " ", " ", "|", "|"),
        (PromptSeparation::Sharp, "\u{e0b0}", "\u{e0b2}", "\u{e0b1}", "\u{e0b3}"),
        (PromptSeparation::Slash, "\u{e0bc}", "\u{e0ba}", "\u{2571}", "\u{2571}"),
        (PromptSeparation::BackSlash, "\u{e0b8}", "\u{e0be}", "\u{2572}", "\u{2572}"),
        (PromptSeparation::Round, "\u{e0b4}", "\u{e0b6}", "\u{e0b5}", "\u{e0b7}"),
        (PromptSeparation::Blur, "\u{2593}\u{2592}\u{2591}", "\u{2591}\u{2592}\u{2593}", "\u{2591}", "\u{2591}"),
        (PromptSeparation::Flame, "\u{e0c0}", "\u{e0c2}", "\u{e0c1}", "\u{e0c3}"),
        (PromptSeparation::Pixel, "\u{e0c6}", "\u{e0c7}", "\u{e0c4}", "\u{e0c5}"),
        (PromptSeparation::Wave, "\u{e0c8}", "\u{e0ca}", "\u{e0c9}", "\u{e0cb}"),
        (PromptSeparation::Lego, "\u{e0b0}", "\u{e0b2}", "\u{e0b1}", "\u{e0b3}"),
    ];
    for (separation, box_left, box_right, line_left, line_right) in table {
        assert_eq!(separation.sep_box(), PromptSeparationBox::new(box_left, box_right));
        assert_eq!(separation.sep_line(), PromptSeparationLine::new(line_left, line_right));
        assert_eq!(PromptSeparationBox::from(separation).left, box_left);
        assert_eq!(PromptSeparationLine::from(separation).right, line_right);
    }
    let pair = PromptSeparationBox::new("<", ">");
    assert_eq!(pair.left, "<");
    assert_eq!(pair.right, ">");
    let pair = PromptSeparationLine::new("(", ")");
    assert_eq!(pair.left, "(");
    assert_eq!(pair.right, ")");
}

#[test]
fn prompt_parts_are_ordered_by_weight() {
    let transient = PromptType::Transient { exit_code: Some(3) };
    assert_eq!(PromptType::Left.weight(), 0);
    assert_eq!(PromptType::Right.weight(), 1);
    assert_eq!(transient.weight(), 2);
    assert_eq!(PromptType::Hook.weight(), 3);
    assert_eq!(PromptType::Left.cmp(&PromptType::Right), Ordering::Less);
    assert_eq!(transient.cmp(&PromptType::Right), Ordering::Greater);
    assert_eq!(transient.cmp(&PromptType::Transient { exit_code: None }), Ordering::Equal);
    assert_eq!(PromptType::Left.partial_cmp(&PromptType::Left), Some(Ordering::Equal));
    assert_eq!(PromptType::Hook.partial_cmp(&transient), Some(Ordering::Greater));
    assert!(PromptType::Left < PromptType::Right);
    assert!(PromptType::Right < transient);
    assert!(transient >= PromptType::Transient { exit_code: Some(0) });
    assert!(transient != PromptType::Transient { exit_code: Some(0) });
}

#[test]
fn install_paths_lie_in_the_project_directories() {
    let dirs = ProjectDirs {
        data_local_dir: "/home/ann/.local/share/zsh-infinite".to_string(),
        config_dir: "/home/ann/.config/zsh-infinite".to_string(),
    };
    assert_eq!(
        get_install_paths(Some(&dirs)),
        Ok(InstallPaths {
            bin_dir: "/home/ann/.local/share/zsh-infinite/bin".to_string(),
            theme_file_path: "/home/ann/.config/zsh-infinite/infinite.zsh-theme".to_string(),
            zshrc_snippet_path: "/home/ann/.config/zsh-infinite/infinite_zshrc_snippet".to_string(),
        })
    );
    assert_eq!(
        get_install_paths(None),
        Err("Could not determine project directories for installation.".to_string())
    );
}

#[test]
fn module_commands_keep_no_state() {
    let run = |command: ZmodCommands| ZmodArgs { command }.run();
    assert_eq!(run(ZmodCommands::Get { key: "k".to_string() }), Ok(ZmodAction::Nothing));
    assert_eq!(
        run(ZmodCommands::Store { key: "k".to_string(), value: "v".to_string() }),
        Ok(ZmodAction::Nothing)
    );
    assert_eq!(run(ZmodCommands::Get { key: "k".to_string() }), Ok(ZmodAction::Nothing));
    assert_eq!(run(ZmodCommands::Precmd), Ok(ZmodAction::Precmd));
    assert_eq!(run(ZmodCommands::LineFinish), Ok(ZmodAction::LineFinish));
    assert_eq!(run(ZmodCommands::Cleanup), Ok(ZmodAction::Nothing));
    let args = ZmodArgs { command: ZmodCommands::Cleanup };
    assert_eq!(args.fetch_internal_state("k"), None);
    assert_eq!(args.save_internal_state("k", "v"), Ok(()));
    assert_eq!(args.perform_cleanup(), Ok(()));
}
