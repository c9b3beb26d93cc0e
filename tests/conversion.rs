use std::path::PathBuf;

use themex::converter::{missing_editor_keys, ConversionOptions, OutputFormat, ThemeConverter};
use themex::types::{
    HighlightGroup, SemanticSetting, SemanticTokenColors, ThemeConfig, TokenColor, TokenScope,
    TokenSettings,
};

fn text(s: &str) -> String {
    s.to_string()
}

fn theme(name: &str, kind: &str, colors: &[(&str, &str)], rules: Vec<TokenColor>) -> ThemeConfig {
    ThemeConfig {
        name: text(name),
        theme_type: text(kind),
        colors: colors.iter().map(|(k, v)| (text(k), text(v))).collect(),
        semantic_highlighting: false,
        semantic_token_colors: None,
        token_colors: rules,
    }
}

fn rule(scope: TokenScope, fg: Option<&str>, bg: Option<&str>) -> TokenColor {
    TokenColor {
        name: None,
        scope,
        settings: TokenSettings {
            foreground: fg.map(text),
            background: bg.map(text),
            font_style: None,
        },
    }
}

fn options(format: OutputFormat) -> ConversionOptions {
    ConversionOptions {
        output_format: format,
        custom_name: Some(text("test_output")),
        include_treesitter: true,
        include_lsp: true,
    }
}

fn mocha() -> ThemeConfig {
    theme(
        "Catppuccin Mocha Test",
        "dark",
        &[
            ("editor.background", "#1e1e2e"),
            ("editor.foreground", "#cdd6f4"),
            ("editor.findMatchBackground", "#5e3f53"),
            ("editor.findMatchHighlightBackground", "#3e5767"),
        ],
        vec![rule(TokenScope::Single(text("comment")), Some("#6c7086"), None)],
    )
}

fn resolved(t: ThemeConfig, o: ConversionOptions) -> themex::types::Highlights {
    let mut converter = ThemeConverter::new(t, o);
    converter.convert();
    converter.get_highlights()
}

struct Args {
    input_path: PathBuf,
    format: OutputFormat,
    name: Option<String>,
    output_path: Option<PathBuf>,
    treesitter: bool,
    lsp: bool,
    verbose: bool,
}

#[test]
fn test_cli_options_to_conversion_options() {
    let args = Args {
        input_path: PathBuf::from("dummy.json"),
        format: OutputFormat::Both,
        name: Some("custom_name".to_string()),
        output_path: Some(PathBuf::from("./test_output")),
        treesitter: true,
        lsp: false,
        verbose: true,
    };
    assert_eq!(args.input_path, PathBuf::from("dummy.json"));
    assert!(args.verbose);

    let options = ConversionOptions {
        output_format: args.format,
        custom_name: args.name,
        include_treesitter: args.treesitter,
        include_lsp: args.lsp,
    };

    assert_eq!(options.output_format, OutputFormat::Both);
    assert_eq!(options.custom_name, Some("custom_name".to_string()));
    assert_eq!(options.include_treesitter, true);
    assert_eq!(options.include_lsp, false);
    assert_eq!(args.output_path, Some(PathBuf::from("./test_output")));
}

#[test]
fn test_test_theme_loading() {
    let t = mocha();
    assert_eq!(t.name, "Catppuccin Mocha Test");
    assert_eq!(t.theme_type, "dark");

    let highlight = resolved(t, options(OutputFormat::Lua));

    let normal = highlight.get("Normal").unwrap();
    assert_eq!(normal.fg, Some("#cdd6f4".to_string()));
    assert_eq!(normal.bg, Some("#1e1e2e".to_string()));

    assert_eq!(highlight.get("Search").unwrap().fg, None);
    assert_eq!(highlight.get("Search").unwrap().bg, Some("#3e5767".to_string()));

    assert_eq!(highlight.get("IncSearch").unwrap().fg, None);
    assert_eq!(highlight.get("IncSearch").unwrap().bg, Some("#5e3f53".to_string()));

    assert_eq!(highlight.get("CurSearch").unwrap().fg, None);
    assert_eq!(highlight.get("CurSearch").unwrap().bg, Some("#5e3f53".to_string()));
}

#[test]
fn normal_takes_theme_editor_colors() {
    let t = theme(
        "Dark",
        "dark",
        &[("editor.background", "#1e1e2e"), ("editor.foreground", "#cdd6f4")],
        vec![],
    );
    let h = resolved(t, options(OutputFormat::Vim));
    let normal = h.get("Normal").unwrap();
    assert_eq!(normal.fg.as_deref(), Some("#cdd6f4"));
    assert_eq!(normal.bg.as_deref(), Some("#1e1e2e"));
}

#[test]
fn normal_defaults_follow_shade() {
    let h = resolved(theme("L", "light", &[], vec![]), options(OutputFormat::Vim));
    let normal = h.get("Normal").unwrap();
    assert_eq!(normal.fg.as_deref(), Some("#000000"));
    assert_eq!(normal.bg.as_deref(), Some("#ffffff"));

    let h = resolved(theme("D", "dark", &[], vec![]), options(OutputFormat::Vim));
    let normal = h.get("Normal").unwrap();
    assert_eq!(normal.fg.as_deref(), Some("#d4d4d4"));
    assert_eq!(normal.bg.as_deref(), Some("#1e1e1e"));

    // No type: the background decides; a dark one gives the dark foreground.
    let h = resolved(theme("U", "", &[("editor.background", "#101010")], vec![]), options(OutputFormat::Vim));
    assert_eq!(h.get("Normal").unwrap().fg.as_deref(), Some("#d4d4d4"));
    let h = resolved(theme("U", "", &[("editor.background", "#f0f0f0")], vec![]), options(OutputFormat::Vim));
    assert_eq!(h.get("Normal").unwrap().fg.as_deref(), Some("#000000"));
}

#[test]
fn search_background_only() {
    let t = theme("S", "dark", &[("editor.findMatchHighlightBackground", "#3e5767")], vec![]);
    let h = resolved(t, options(OutputFormat::Vim));
    let search = h.get("Search").unwrap();
    assert_eq!(search.fg, None);
    assert_eq!(search.bg.as_deref(), Some("#3e5767"));
}

#[test]
fn alias_copies_resolved_group() {
    let h = resolved(mocha(), options(OutputFormat::Vim));
    let comment = h.get("Comment").unwrap();
    assert_eq!(comment.fg.as_deref(), Some("#6c7086"));
    let alias = h.get("@comment").unwrap();
    assert_eq!(alias.fg, comment.fg);
    assert_eq!(alias.bg, comment.bg);
    assert_eq!(alias.sp, comment.sp);
    assert_eq!(alias.link, comment.link);
    // A group that never resolved gives its aliases nothing.
    assert!(h.get("@keyword").is_none());
}

#[test]
fn alias_pass_can_be_left_out() {
    let mut o = options(OutputFormat::Vim);
    o.include_treesitter = false;
    let h = resolved(mocha(), o);
    assert!(h.get("Comment").is_some());
    assert!(h.get("@comment").is_none());
}

#[test]
fn rule_replaces_earlier_group() {
    let t = theme(
        "R",
        "dark",
        &[("editorError.foreground", "#ff0000")],
        vec![
            rule(TokenScope::Single(text("comment")), Some("#111111"), Some("#222222")),
            rule(
                TokenScope::Multiple(vec![text("string.quoted"), text("comment.line")]),
                None,
                Some("#333333"),
            ),
        ],
    );
    let h = resolved(t, options(OutputFormat::Vim));
    let comment = h.get("Comment").unwrap();
    assert_eq!(comment.fg, None);
    assert_eq!(comment.bg.as_deref(), Some("#333333"));
    assert_eq!(h.get("String").unwrap().bg.as_deref(), Some("#333333"));
    assert_eq!(h.get("Error").unwrap().fg.as_deref(), Some("#ff0000"));
    assert_eq!(h.get("@error").unwrap().fg.as_deref(), Some("#ff0000"));
}

#[test]
fn semantic_pass_overrides_rules() {
    let mut t = mocha();
    t.semantic_token_colors = Some(SemanticTokenColors {
        tokens: vec![(
            text("comment"),
            SemanticSetting { foreground: Some(text("#abcdef")), font_style: None },
        )],
    });
    let h = resolved(t, options(OutputFormat::Vim));
    assert_eq!(h.get("Comment").unwrap().fg.as_deref(), Some("#abcdef"));
    assert_eq!(h.get("@comment").unwrap().fg.as_deref(), Some("#abcdef"));

    let mut t = mocha();
    t.semantic_token_colors = Some(SemanticTokenColors {
        tokens: vec![(
            text("comment"),
            SemanticSetting { foreground: Some(text("#abcdef")), font_style: None },
        )],
    });
    let mut o = options(OutputFormat::Vim);
    o.include_lsp = false;
    let h = resolved(t, o);
    assert_eq!(h.get("Comment").unwrap().fg.as_deref(), Some("#6c7086"));
}

#[test]
fn unique_semantic_colors() {
    let stc = SemanticTokenColors {
        tokens: vec![
            (text("a"), SemanticSetting { foreground: Some(text("#111111")), font_style: None }),
            (text("b"), SemanticSetting { foreground: None, font_style: Some(text("bold")) }),
            (text("c"), SemanticSetting { foreground: Some(text("#222222")), font_style: None }),
            (text("d"), SemanticSetting { foreground: Some(text("#111111")), font_style: None }),
        ],
    };
    assert_eq!(stc.get_unique_colors(), vec![text("#111111"), text("#222222")]);
}

#[test]
fn conversion_repeats_byte_for_byte() {
    let mut a = ThemeConverter::new(mocha(), options(OutputFormat::Both));
    a.convert();
    let vim1 = a.vim_content.clone().unwrap();
    let lua1 = a.lua_content.clone().unwrap();
    a.convert();
    assert_eq!(a.vim_content.clone().unwrap(), vim1);
    assert_eq!(a.lua_content.clone().unwrap(), lua1);

    let mut b = ThemeConverter::new(mocha(), options(OutputFormat::Both));
    b.convert();
    assert_eq!(b.vim_content.unwrap(), vim1);
    assert_eq!(b.lua_content.unwrap(), lua1);
}

#[test]
fn only_requested_scripts_are_made() {
    let mut c = ThemeConverter::new(mocha(), options(OutputFormat::Vim));
    c.convert();
    assert!(c.vim_content.is_some());
    assert!(c.lua_content.is_none());
    let mut c = ThemeConverter::new(mocha(), options(OutputFormat::Lua));
    c.convert();
    assert!(c.vim_content.is_none());
    assert!(c.lua_content.is_some());
}

#[test]
fn theme_name_prefers_custom() {
    let c = ThemeConverter::new(mocha(), options(OutputFormat::Vim));
    assert_eq!(c.get_theme_name(), "test_output");
    let mut o = options(OutputFormat::Vim);
    o.custom_name = None;
    let c = ThemeConverter::new(mocha(), o);
    assert_eq!(c.get_theme_name(), "Catppuccin Mocha Test");
}

#[test]
fn vim_script_content() {
    let mut c = ThemeConverter::new(mocha(), options(OutputFormat::Vim));
    c.convert();
    let vim = c.vim_content.unwrap();
    assert!(vim.starts_with("\" Catppuccin Mocha Test\n"));
    assert!(vim.contains("set background=dark\n"));
    assert!(vim.contains("let g:colors_name = \"catppuccin_mocha_test\"\n"));
    assert!(vim.contains("\" Highlight groups\nhi Normal guifg=#cdd6f4 guibg=#1e1e2e gui=NONE\n"));
    assert!(vim.contains("hi Search guibg=#3e5767 gui=NONE\n"));
    assert!(vim.contains("hi @comment guifg=#6c7086 gui=NONE\n"));
    assert!(vim.contains("hi link Conceal NonText\n"));
    assert!(vim.ends_with("hi link VisualNOS Visual\n"));
}

#[test]
fn lua_module_content() {
    let mut c = ThemeConverter::new(mocha(), options(OutputFormat::Lua));
    c.convert();
    let lua = c.lua_content.unwrap();
    assert!(lua.starts_with("-- Name: Catppuccin Mocha Test\n\nlocal M = {}\n"));
    assert!(lua.contains("  vim.g.colors_name = \"catppuccin_mocha_test\"\n"));
    assert!(lua.contains("  vim.o.background = \"dark\"\n"));
    assert!(lua.contains("    Normal = { fg = \"#cdd6f4\", bg = \"#1e1e2e\" },\n"));
    assert!(lua.contains("    [\"@comment\"] = { fg = \"#6c7086\" },\n"));
    assert!(lua.ends_with("return M\n"));
}

#[test]
fn group_lines_render_styles_and_links() {
    let t = mocha();
    let h = themex::types::Highlights::new();
    let vim = themex::VimGenerator::new(&t, &h);
    let mut g = HighlightGroup::default();
    g.fg = Some(text("#ABC"));
    g.bg = Some(text("#11223380"));
    g.sp = Some(text("oops"));
    g.bold = Some(true);
    g.undercurl = Some(true);
    g.italic = Some(false);
    assert_eq!(vim.format_highlight_group("Todo", &g), "hi Todo guifg=#aabbcc guibg=#112233 gui=bold,undercurl");
    let mut l = HighlightGroup::default();
    l.link = Some(text("Comment"));
    l.fg = Some(text("#000000"));
    assert_eq!(vim.format_highlight_group("Note", &l), "hi link Note Comment");

    let mut hs = themex::types::Highlights::new();
    hs.insert("@x", g.clone());
    hs.insert("Y", l.clone());
    let lua = themex::LuaGenerator::new(&t, &hs).generate();
    assert!(lua.contains("    [\"@x\"] = { fg = \"#aabbcc\", bg = \"#112233\", bold = true, undercurl = true },\n"));
    assert!(lua.contains("    Y = { link = \"Comment\" },\n"));
}

#[test]
fn vim_default_links_skip_present_groups() {
    let t = mocha();
    let mut hs = themex::types::Highlights::new();
    hs.insert("Conceal", HighlightGroup::default());
    let vim = themex::VimGenerator::new(&t, &hs).generate();
    assert!(vim.contains("hi Conceal gui=NONE\n"));
    assert!(!vim.contains("hi link Conceal NonText"));
    assert!(vim.contains("hi link Ignore NonText\n"));
}

#[test]
fn theme_description() {
    assert_eq!(
        mocha().describe(),
        "Theme「Catppuccin Mocha Test」(dark) - color count: 4, token count: 1"
    );
    let colors: Vec<(String, String)> = (0..12).map(|i| (format!("k{}", i), text("#000000"))).collect();
    let mut t = theme("Many", "light", &[], vec![]);
    t.colors = colors;
    assert_eq!(t.describe(), "Theme「Many」(light) - color count: 12, token count: 0");
}

#[test]
fn missing_editor_keys_in_table_order() {
    let all = missing_editor_keys(&theme("E", "dark", &[], vec![]));
    assert_eq!(all.len(), 39);
    assert_eq!(all[0], "editor.background");
    let t = mocha();
    let missing = missing_editor_keys(&t);
    assert_eq!(missing.len(), 39 - 5);
    assert!(!missing.contains(&"editor.background"));
    assert!(!missing.contains(&"editor.findMatchBackground"));
    assert!(missing.contains(&"editor.lineHighlightBackground"));
}

#[test]
fn unrequested_script_is_cleared() {
    let mut c = ThemeConverter::new(mocha(), options(OutputFormat::Both));
    c.convert();
    assert!(c.vim_content.is_some() && c.lua_content.is_some());
    c.options.output_format = OutputFormat::Lua;
    c.convert();
    assert!(c.vim_content.is_none());
    assert!(c.lua_content.is_some());
}
