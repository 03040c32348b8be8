use zsh_infinite::zsh::prompt::left::{
    acquire, connector_text, fill_columns, frame_row, left, render_row, repeat, LineReplies,
};
use zsh_infinite::zsh::prompt::hook::hook;
use zsh_infinite::zsh::prompt::right::right;
use zsh_infinite::zsh::prompt::segment::segment;
use zsh_infinite::zsh::prompt::transient::transient;
use zsh_infinite::zsh::prompt::{Prompt, PromptConnection, PromptSeparation};
use zsh_infinite::zsh::seq::{NamedColor, ZshPromptBuilder, ZshSequence};
use zsh_infinite::zsh::theme::color_scheme::{AccentColor, PromptColorScheme};
use zsh_infinite::zsh::theme::prompt_theme::{
    AccentWhich, ContentReply, PromptContent, PromptContents, PromptSegmentSeparators, PromptTheme,
};
use zsh_infinite::zsh::build_prompt;
use zsh_infinite::args::PromptType;

const BG: NamedColor = NamedColor::Black;
const RED: NamedColor = NamedColor::FullColor((255, 0, 0));
const GREEN: NamedColor = NamedColor::FullColor((0, 255, 0));
const BLUE: NamedColor = NamedColor::FullColor((0, 0, 255));

fn text(s: &str) -> ZshSequence {
    ZshSequence::Literal(s.to_string())
}

fn fg(c: NamedColor) -> ZshSequence {
    ZshSequence::ForegroundColor(c)
}

fn bg(c: NamedColor) -> ZshSequence {
    ZshSequence::BackgroundColor(c)
}

const FG_END: ZshSequence = ZshSequence::ForegroundColorEnd;
const BG_END: ZshSequence = ZshSequence::BackgroundColorEnd;

fn literal(value: &str) -> PromptContent {
    PromptContent::Literal { value: value.to_string(), fg: None, bg: None }
}

/// A line whose accent is red at the start of the line, green in its
/// middle and blue at its end.
fn line(which: AccentWhich, edge_cap: bool, bold: bool) -> PromptContents {
    let separators = PromptSegmentSeparators {
        start_separator: PromptSeparation::Round,
        mid_separator: PromptSeparation::Slash,
        end_separator: PromptSeparation::Sharp,
        edge_cap,
        bold_separation: bold,
    };
    PromptContents {
        left: Vec::new(),
        right: Vec::new(),
        color: PromptColorScheme {
            bg: BG,
            fg: NamedColor::White,
            pc: NamedColor::Cyan,
            sc: NamedColor::LightBlack,
            accent: AccentColor::Gradient(vec![
                ((255, 0, 0), 0),
                ((0, 255, 0), 500_000),
                ((0, 0, 255), 1_000_000),
            ]),
            accent_which: zsh_infinite::zsh::theme::color_scheme::AccentWhich::ForeGround,
        },
        connection: PromptConnection::Line,
        left_segment_separators: separators,
        right_segment_separators: separators,
        accent_which: which,
    }
}

fn prompt(left: &[&str], right: &[&str]) -> Prompt {
    let mut prompt = Prompt::default();
    for content in left {
        assert!(prompt.can_hold(1));
        prompt.add_left(content);
    }
    for content in right {
        assert!(prompt.can_hold(1));
        prompt.add_right(content);
    }
    prompt
}

#[test]
fn slots_count_segments_and_their_edges() {
    let empty = prompt(&[], &[]);
    assert_eq!(empty.left_separation(), 0);
    assert_eq!(empty.right_separation(), 0);
    assert_eq!(empty.total_separation(), 0);
    let some = prompt(&["a", "b", "c"], &["d"]);
    assert_eq!(some.left_separation(), 4);
    assert_eq!(some.right_separation(), 2);
    assert_eq!(some.total_separation(), 6);
    assert!(some.can_hold(usize::MAX - 7));
    assert!(!some.can_hold(usize::MAX - 6));
}

#[test]
fn extend_adds_lists_of_sequences() {
    let mut p = Prompt::default();
    p.extend_left(vec![vec![fg(RED), text("x"), FG_END], vec![text("y")]]);
    p.extend_right(vec![vec![text("z")]]);
    assert_eq!(p.left_separation(), 3);
    assert_eq!(p.right_separation(), 2);
    let rendered = p.render_left_bg(&line(AccentWhich::BackGround, false, false));
    // three segments in all: the accent is sampled at 0/3 and 1/3
    let second = NamedColor::FullColor((85, 170, 0));
    assert_eq!(
        rendered.sequences(),
        &vec![
            fg(RED), text("\u{e0b6}"), FG_END,
            bg(RED), fg(RED), text("x"), FG_END, BG_END,
            fg(RED), bg(BG), text("\u{e0bc}"), FG_END, BG_END,
            bg(second), text("y"), BG_END,
            fg(second), BG_END, text("\u{e0b0}"), FG_END,
        ]
    );
}

#[test]
fn halves_without_segments_render_as_nothing() {
    let one_sided = prompt(&["a"], &[]);
    for which in [AccentWhich::ForeGround, AccentWhich::BackGround] {
        for cap in [false, true] {
            let config = line(which, cap, true);
            let right = one_sided.render_right(&config);
            assert_eq!(right, ZshPromptBuilder::new());
            assert_eq!(right.len(), 0);
            assert_eq!(prompt(&[], &["a"]).render_left(&config).len(), 0);
        }
    }
    let config = line(AccentWhich::ForeGround, true, true);
    assert_eq!(one_sided.render_right_fg(&config).sequences().len(), 0);
    assert_eq!(one_sided.render_right_bg(&config).sequences().len(), 0);
    assert_eq!(prompt(&[], &[]).render_left_fg(&config).sequences().len(), 0);
    assert_eq!(prompt(&[], &[]).render_left_bg(&config).sequences().len(), 0);
}

#[test]
fn left_half_with_accent_on_the_separators() {
    // slots: 3 on the left, 2 on the right, and one more: the accent is
    // sampled at 0/6 for the first cap, 1/6 for the separator and 3/6 for
    // the last cap
    let p = prompt(&["ab", "cd"], &["ef"]);
    let sep = NamedColor::FullColor((170, 85, 0));
    let capped = p.render_left(&line(AccentWhich::ForeGround, true, true));
    assert_eq!(
        capped.sequences(),
        &vec![
            fg(RED), text("\u{e0b6}"), FG_END,
            bg(RED), fg(BG), text("\u{e0b6}"), FG_END, BG_END,
            bg(BG), text("ab"), BG_END,
            fg(BG), bg(sep), text("\u{e0bc}"), bg(BG), fg(sep), text("\u{e0bc}"), FG_END, BG_END,
            bg(BG), text("cd"), BG_END,
            fg(BG), bg(GREEN), text("\u{e0b0}"), BG_END, fg(GREEN), text("\u{e0b0}"), FG_END,
        ]
    );
    let plain = p.render_left(&line(AccentWhich::ForeGround, false, false));
    assert_eq!(
        plain.sequences(),
        &vec![
            fg(BG), text("\u{e0b6}"), FG_END,
            bg(BG), text("ab"), BG_END,
            bg(BG), fg(sep), text("\u{2571}"), FG_END, BG_END,
            bg(BG), text("cd"), BG_END,
            fg(BG), BG_END, text("\u{e0b0}"), FG_END,
        ]
    );
    assert_eq!(capped.len(), 2 + 2 + 2 + 2 + 2);
    assert_eq!(plain.len(), 1 + 2 + 1 + 2 + 1);
}

#[test]
fn right_half_with_accent_on_the_separators() {
    // slots as above; the right half starts at 4/6, its separator is at
    // 5/6 and its last cap at the end of the line
    let p = prompt(&["ab", "cd"], &["ef", "gh"]);
    // slots: 3 + 3 + 1 = 7; first cap at 4/7, separator at 5/7
    let start = NamedColor::FullColor((0, 219, 36));
    let sep = NamedColor::FullColor((0, 146, 109));
    let capped = p.render_right(&line(AccentWhich::ForeGround, true, true));
    assert_eq!(
        capped.sequences(),
        &vec![
            fg(start), text("\u{e0b6}"), FG_END,
            bg(start), fg(BG), text("\u{e0b6}"), FG_END, BG_END,
            bg(BG), text("ef"), BG_END,
            fg(sep), bg(BG), text("\u{e0ba}"), fg(BG), bg(sep), text("\u{e0ba}"), FG_END, BG_END,
            bg(BG), text("gh"), BG_END,
            fg(BG), bg(BLUE), text("\u{e0b0}"), BG_END, fg(BLUE), text("\u{e0b0}"), FG_END,
        ]
    );
    let plain = p.render_right_fg(&line(AccentWhich::ForeGround, false, false));
    assert_eq!(
        plain.sequences(),
        &vec![
            fg(BG), text("\u{e0b6}"), FG_END,
            bg(BG), text("ef"), BG_END,
            bg(BG), fg(sep), text("\u{2571}"), FG_END, BG_END,
            bg(BG), text("gh"), BG_END,
            fg(BG), BG_END, text("\u{e0b0}"), FG_END,
        ]
    );
}

#[test]
fn left_half_with_accent_behind_the_segments() {
    // four segments in all: the backgrounds are sampled at 0/4 and 1/4
    let p = prompt(&["ab", "cd"], &["ef", "gh"]);
    let second = NamedColor::FullColor((128, 128, 0));
    let capped = p.render_left(&line(AccentWhich::BackGround, true, true));
    assert_eq!(
        capped.sequences(),
        &vec![
            fg(BG), text("\u{e0b6}"), FG_END,
            bg(BG), fg(RED), text("\u{e0b6}"), FG_END, BG_END,
            bg(RED), text("ab"), BG_END,
            fg(RED), bg(BG), text("\u{e0bc}"), bg(second), fg(BG), text("\u{e0bc}"), FG_END, BG_END,
            bg(second), text("cd"), BG_END,
            fg(second), bg(BG), text("\u{e0b0}"), BG_END, fg(BG), text("\u{e0b0}"), FG_END,
        ]
    );
    let plain = p.render_left_bg(&line(AccentWhich::BackGround, false, false));
    assert_eq!(
        plain.sequences(),
        &vec![
            fg(RED), text("\u{e0b6}"), FG_END,
            bg(RED), text("ab"), BG_END,
            fg(RED), bg(BG), text("\u{e0bc}"), FG_END, BG_END,
            bg(second), text("cd"), BG_END,
            fg(second), BG_END, text("\u{e0b0}"), FG_END,
        ]
    );
}

#[test]
fn right_half_with_accent_behind_the_segments() {
    // slots: 2 on the left and 3 on the right; the backgrounds of the
    // right half are sampled at 3/5 and 4/5, its last cap at 4/5
    let p = prompt(&["ab"], &["ef", "gh"]);
    let first = NamedColor::FullColor((0, 204, 51));
    let second = NamedColor::FullColor((0, 102, 153));
    let capped = p.render_right(&line(AccentWhich::BackGround, true, true));
    assert_eq!(
        capped.sequences(),
        &vec![
            fg(BG), text("\u{e0b6}"), FG_END,
            bg(BG), fg(first), text("\u{e0b6}"), FG_END, BG_END,
            bg(first), text("ef"), BG_END,
            fg(BG), bg(first), text("\u{e0ba}"), bg(BG), fg(second), text("\u{e0ba}"), FG_END, BG_END,
            bg(second), text("gh"), BG_END,
            fg(second), bg(BG), text("\u{e0b0}"), BG_END, fg(BG), text("\u{e0b0}"), FG_END,
        ]
    );
    let plain = p.render_right_bg(&line(AccentWhich::BackGround, false, false));
    assert_eq!(
        plain.sequences(),
        &vec![
            fg(first), text("\u{e0b6}"), FG_END,
            bg(first), text("ef"), BG_END,
            bg(second), fg(BG), text("\u{2571}"), FG_END, BG_END,
            bg(second), text("gh"), BG_END,
            fg(second), BG_END, text("\u{e0b0}"), FG_END,
        ]
    );
}

#[test]
fn builder_appends_in_order() {
    let builder = ZshPromptBuilder::new()
        .color(RED)
        .color_bg(BLUE)
        .str("a")
        .end_color()
        .end_color_bg()
        .newline()
        .reset_styles()
        .chain(vec![text("b"), FG_END])
        .connect(ZshPromptBuilder::new().str("c"));
    let expected = vec![
        fg(RED), bg(BLUE), text("a"), FG_END, BG_END,
        ZshSequence::Newline, ZshSequence::ResetStyles,
        text("b"), FG_END, text("c"),
    ];
    assert_eq!(builder.sequences(), &expected);
    assert_eq!(builder.into_sequences(), expected);
}

#[test]
fn visible_width_counts_columns_not_markers() {
    assert_eq!(ZshPromptBuilder::new().len(), 0);
    assert_eq!(ZshPromptBuilder::new().color(RED).end_color().newline().len(), 0);
    assert_eq!(ZshPromptBuilder::new().str("abc").len(), 3);
    assert_eq!(ZshPromptBuilder::new().str("\u{2500}\u{e0b0}").len(), 2);
    assert_eq!(ZshPromptBuilder::new().str("\u{6f22}\u{5b57}").len(), 4);
    assert_eq!(ZshPromptBuilder::new().str("e\u{301}").len(), 1);
    assert_eq!(ZshPromptBuilder::new().str("ab").color(RED).str("\u{6f22}").end_color().len(), 4);
}

#[test]
fn fill_is_what_the_terminal_has_left() {
    assert_eq!(fill_columns(80, 10, 20, 4), 46);
    assert_eq!(fill_columns(80, 0, 0, 0), 80);
    assert_eq!(fill_columns(80, 76, 0, 4), 0);
    assert_eq!(fill_columns(80, 77, 0, 4), 0);
    assert_eq!(fill_columns(80, 50, 50, 4), 0);
    assert_eq!(fill_columns(0, 0, 0, 0), 0);
    assert_eq!(fill_columns(0, 1, 2, 3), 0);
    assert_eq!(fill_columns(80, usize::MAX, usize::MAX, usize::MAX), 0);
    assert_eq!(fill_columns(usize::MAX, 1, 2, 3), usize::MAX - 6);
}

#[test]
fn repeat_writes_copies() {
    assert_eq!(repeat("ab", 0), "");
    assert_eq!(repeat("ab", 3), "ababab");
    assert_eq!(repeat("", 5), "");
    assert_eq!(repeat("\u{2500}", 2), "\u{2500}\u{2500}");
}

#[test]
fn connector_fills_the_gap() {
    let left = ZshPromptBuilder::new().str("12345");
    let right = ZshPromptBuilder::new().color(RED).str("123").end_color();
    // the decoration takes 2 * (1 + 1) columns
    assert_eq!(connector_text(PromptConnection::Line, &left, &right, 20), "\u{2500}".repeat(8));
    assert_eq!(connector_text(PromptConnection::Blank, &left, &right, 13), " ");
    assert_eq!(connector_text(PromptConnection::Wave, &left, &right, 12), "");
    assert_eq!(connector_text(PromptConnection::Wave, &left, &right, 5), "");
    assert_eq!(connector_text(PromptConnection::Bar, &left, &right, 0), "");
    let nothing = ZshPromptBuilder::new();
    assert_eq!(connector_text(PromptConnection::Dot, &left, &nothing, 12), "\u{b7}\u{b7}\u{b7}");
}

#[test]
fn acquisition_keeps_order_and_drops_what_is_empty() {
    let contents = vec![
        literal("a"),
        PromptContent::Daemon { command: zsh_infinite::zsh::command::Commands::Pwd { color: None } },
        literal("b"),
        PromptContent::Shell {
            cmd: "true".to_string(),
            args: Vec::new(),
            envs: Vec::new(),
            fg: None,
            bg: None,
        },
        literal("c"),
    ];
    let replies = vec![
        ContentReply::Nothing,
        ContentReply::Segments(Vec::new()),
        ContentReply::Nothing,
        ContentReply::Output { success: true, stdout: "  \n".to_string() },
    ];
    assert_eq!(
        acquire(&contents, &replies),
        vec![vec![text("a")], vec![text("b")], vec![text("c")]]
    );
    assert_eq!(acquire(&contents, &Vec::new()).len(), 3);
    assert_eq!(acquire(&Vec::new(), &replies), Vec::<Vec<ZshSequence>>::new());
}

#[test]
fn row_with_an_empty_right_side() {
    let mut config = line(AccentWhich::ForeGround, false, false);
    config.left = vec![literal("ab")];
    let replies = LineReplies { left: Vec::new(), right: Vec::new() };
    let row = render_row(&config, &replies, 20, true);
    let sc = NamedColor::LightBlack;
    // the left half is 1 + 2 + 1 columns wide, the decoration 4
    assert_eq!(
        row.sequences(),
        &vec![
            fg(sc), text("\u{250c}"), text("\u{2500}"), FG_END,
            fg(BG), text("\u{e0b6}"), FG_END,
            bg(BG), text("ab"), BG_END,
            fg(BG), BG_END, text("\u{e0b0}"), FG_END,
            fg(NamedColor::Cyan), text(&"\u{2500}".repeat(12)), FG_END,
            fg(sc), text("\u{2500}"), text("\u{2510}"), FG_END,
        ]
    );
    assert_eq!(row.len(), 20);
    let narrow = render_row(&config, &replies, 7, false);
    assert_eq!(narrow.sequences()[1], text("\u{251c}"));
    assert_eq!(narrow.sequences()[15], text(""));
    assert_eq!(narrow.sequences()[19], text("\u{2524}"));
    assert_eq!(narrow.len(), 8);
}

#[test]
fn rows_fit_the_terminal_when_there_is_room() {
    for which in [AccentWhich::ForeGround, AccentWhich::BackGround] {
        let mut config = line(which, true, true);
        config.left = vec![literal("user"), literal("host")];
        config.right = vec![literal("~/src"), literal("0"), literal("12:00")];
        let replies = LineReplies { left: Vec::new(), right: Vec::new() };
        for width in [60usize, 80, 200] {
            assert_eq!(render_row(&config, &replies, width, true).len(), width);
        }
    }
}

#[test]
fn frame_puts_halves_and_connector_together() {
    let config = line(AccentWhich::ForeGround, true, true);
    let row = frame_row(
        &config,
        ZshPromptBuilder::new().str("L"),
        "--",
        ZshPromptBuilder::new().str("R"),
        false,
    );
    let sc = NamedColor::LightBlack;
    assert_eq!(
        row.sequences(),
        &vec![
            fg(sc), text("\u{251c}"), text("\u{2500}"), FG_END,
            text("L"),
            fg(NamedColor::Cyan), text("--"), FG_END,
            text("R"),
            fg(sc), text("\u{2500}"), text("\u{2524}"), FG_END,
        ]
    );
}

#[test]
fn prompt_of_a_theme_without_lines() {
    let theme = PromptTheme {
        prompt_contents_list: Vec::new(),
        transient_color: PromptColorScheme::default(),
    };
    let sc = NamedColor::LightBlack;
    let built = left(&theme, &Vec::new(), 80);
    assert_eq!(
        built.sequences(),
        &vec![
            fg(sc), text("\u{256d}"), text(" "), text(" "), text("\u{256e}"), FG_END,
            fg(sc), text("\u{2570}"), text(" "), text(" "), FG_END,
        ]
    );
    assert_eq!(
        right(&theme).sequences(),
        &vec![fg(sc), text(" "), text("\u{256f}"), FG_END]
    );
    assert_eq!(hook(&theme).sequences(), &vec![text("")]);
}

#[test]
fn prompt_stacks_the_rows_of_the_theme() {
    let mut first = line(AccentWhich::ForeGround, false, false);
    first.left = vec![literal("one")];
    let mut second = line(AccentWhich::BackGround, false, false);
    second.right = vec![literal("two")];
    second.connection = PromptConnection::Double;
    second.color.sc = NamedColor::Yellow;
    let theme = PromptTheme {
        prompt_contents_list: vec![first.clone(), second.clone()],
        transient_color: PromptColorScheme::default(),
    };
    let replies = vec![
        LineReplies { left: vec![ContentReply::Nothing], right: Vec::new() },
        LineReplies { left: Vec::new(), right: vec![ContentReply::Nothing] },
    ];
    let built = left(&theme, &replies, 30);
    let mut expected = render_row(&first, &replies[0], 30, true).into_sequences();
    expected.push(ZshSequence::Newline);
    expected.extend(render_row(&second, &replies[1], 30, false).into_sequences());
    expected.push(ZshSequence::Newline);
    expected.extend(vec![
        fg(NamedColor::Yellow), text("\u{255a}"), text("\u{2550}"), text(" "), FG_END,
    ]);
    assert_eq!(built.sequences(), &expected);
    assert_eq!(expected[1], text("\u{250c}"));
    assert_eq!(
        right(&theme).sequences(),
        &vec![fg(NamedColor::Yellow), text("\u{2550}"), text("\u{255d}"), FG_END]
    );
    assert_eq!(hook(&theme).sequences(), &vec![text("\n\n")]);
    assert_eq!(build_prompt(&PromptType::Left, &theme, &replies, 30), built);
    assert_eq!(build_prompt(&PromptType::Right, &theme, &replies, 30), right(&theme));
    assert_eq!(build_prompt(&PromptType::Hook, &theme, &replies, 30), hook(&theme));
    assert_eq!(
        build_prompt(&PromptType::Transient { exit_code: Some(0) }, &theme, &replies, 30),
        transient(&theme, Some(0))
    );
}

#[test]
fn transient_indicator_shows_the_exit_status() {
    let mut theme = PromptTheme::default();
    theme.transient_color.pc = NamedColor::Green;
    theme.transient_color.sc = NamedColor::Red;
    let ok = vec![fg(NamedColor::Green), text("\u{276f} "), FG_END, ZshSequence::ResetStyles];
    let failed = vec![fg(NamedColor::Red), text("\u{276f} "), FG_END, ZshSequence::ResetStyles];
    assert_eq!(transient(&theme, Some(0)).sequences(), &ok);
    assert_eq!(transient(&theme, Some(1)).sequences(), &failed);
    assert_eq!(transient(&theme, Some(-1)).sequences(), &failed);
    assert_eq!(transient(&theme, None).sequences(), &failed);
}

#[test]
fn segments_of_a_command_are_joined_by_blanks() {
    assert_eq!(segment(&Vec::new()), "");
    assert_eq!(segment(&vec!["a".to_string()]), "a");
    assert_eq!(segment(&vec!["a".to_string(), "".to_string(), "b c".to_string()]), "a  b c");
}
