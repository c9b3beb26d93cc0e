use vstd::prelude::*;

use crate::converter::{theme_dark, theme_is_dark};
use crate::render::{color_part, flag, lower_of, push_flag, render_color, sanitize_name, slug};
use crate::text::{has_char, join, join_strings, texts};
use crate::types::{opt_text, Entries, GroupView, HighlightGroup, Highlights, ThemeConfig};
use crate::vim_gen::shade;

verus! {

/// The lines before the group table.
pub open spec fn lua_header(t: ThemeConfig) -> Seq<char> {
    "-- Name: "@ + t.name@ + "\n\n"@ + "local M = {}\n\n"@ + "function M.setup()\n"@
        + "  vim.cmd('hi clear')\n"@ + "  if vim.fn.exists('syntax_on') then\n"@
        + "    vim.cmd('syntax reset')\n"@ + "  end\n"@ + "  vim.g.colors_name = \""@ + slug(
        lower_of(t.name@),
    ) + "\"\n"@ + "  vim.o.termguicolors = true\n"@ + "  vim.o.background = \""@ + shade(t)
        + "\"\n\n"@ + "  -- Define highlight groups\n"@ + "  local highlights = {\n"@
}

/// The lines after the group table.
pub open spec fn lua_footer() -> Seq<char> {
    "  }\n\n"@ + "  -- Set highlights\n"@ + "  for group, styles in pairs(highlights) do\n"@
        + "    M.highlight(group, styles)\n"@ + "  end\n"@ + "end\n\n"@
        + "-- Helper function to set highlights\n"@ + "function M.highlight(group, styles)\n"@
        + "  vim.api.nvim_set_hl(0, group, {\n"@ + "    fg = styles.fg,\n"@
        + "    bg = styles.bg,\n"@ + "    sp = styles.sp,\n"@ + "    bold = styles.bold,\n"@
        + "    italic = styles.italic,\n"@ + "    underline = styles.underline,\n"@
        + "    undercurl = styles.undercurl,\n"@ + "    strikethrough = styles.strikethrough,\n"@
        + "    link = styles.link,\n"@ + "  })\n"@ + "end\n\n"@ + "return M\n"@
}

/// A group name as a table key: bracketed and quoted where it holds `@`.
pub open spec fn lua_key(name: Seq<char>) -> Seq<char> {
    if name.contains('@') {
        "[\""@ + name + "\"]"@
    } else {
        name
    }
}

/// One color field, where it is present and reads.
pub open spec fn lua_color(prefix: Seq<char>, o: Option<Seq<char>>) -> Seq<Seq<char>> {
    match color_part(o) {
        Some(h) => seq![prefix + h + "\""@],
        None => Seq::empty(),
    }
}

/// The fields of one group, in a fixed order. A group with no style flag on gets
/// no style field at all: a Lua highlight table has no word for "no style", and
/// leaving the flags out already means none.
pub open spec fn lua_parts(g: GroupView) -> Seq<Seq<char>> {
    lua_color("fg = \""@, g.fg) + lua_color("bg = \""@, g.bg) + lua_color("sp = \""@, g.sp) + flag(
        g.bold,
        "bold = true"@,
    ) + flag(g.italic, "italic = true"@) + flag(g.underline, "underline = true"@) + flag(
        g.undercurl,
        "undercurl = true"@,
    ) + flag(g.strikethrough, "strikethrough = true"@)
}

/// The table entry for one group: a link, or its fields.
pub open spec fn lua_line(name: Seq<char>, g: GroupView) -> Seq<char> {
    match g.link {
        Some(l) => "    "@ + lua_key(name) + " = { link = \""@ + l + "\" },\n"@,
        None => "    "@ + lua_key(name) + " = { "@ + join(lua_parts(g), ", "@) + " },\n"@,
    }
}

/// The entries of the first `n` groups, in order.
pub open spec fn lua_groups(es: Entries, n: int) -> Seq<char>
    decreases n,
{
    if n <= 0 {
        Seq::empty()
    } else {
        lua_groups(es, n - 1) + lua_line(es[n - 1].0, es[n - 1].1)
    }
}

/// The whole Lua module.
pub open spec fn lua_text(t: ThemeConfig, es: Entries) -> Seq<char> {
    lua_header(t) + lua_groups(es, es.len() as int) + lua_footer()
}

/// Writes a Lua color module for resolved groups.
pub struct LuaGenerator<'a> {
    pub theme: &'a ThemeConfig,
    pub highlights: &'a Highlights,
}

fn push_color(parts: &mut Vec<String>, prefix: &str, o: &Option<String>)
    ensures
        texts(final(parts)@) == texts(old(parts)@) + lua_color(prefix@, opt_text(*o)),
{
    match render_color(o) {
        Some(h) => {
            let mut part = String::from_str(prefix);
            part.append(h.as_str());
            part.append("\"");
            parts.push(part);
        },
        None => {},
    }
    assert(texts(final(parts)@) =~= texts(old(parts)@) + lua_color(prefix@, opt_text(*o)));
}

fn push_key(out: &mut String, group: &str)
    ensures
        final(out)@ == old(out)@ + lua_key(group@),
{
    if has_char(group, '@') {
        out.append("[\"");
        out.append(group);
        out.append("\"]");
    } else {
        out.append(group);
    }
    assert(final(out)@ =~= old(out)@ + lua_key(group@));
}

impl<'a> LuaGenerator<'a> {
    pub fn new(theme: &'a ThemeConfig, highlights: &'a Highlights) -> (r: Self)
        ensures
            r.theme == theme,
            r.highlights == highlights,
    {
        LuaGenerator { theme, highlights }
    }

    /// Whether the theme is dark.
    fn is_dark_theme(&self) -> (r: bool)
        ensures
            r == theme_dark(*self.theme),
    {
        theme_is_dark(self.theme)
    }

    fn header(&self) -> (r: String)
        ensures
            r@ == lua_header(*self.theme),
    {
        let mut out = String::new();
        out.append("-- Name: ");
        out.append(self.theme.name.as_str());
        out.append("\n\n");
        out.append("local M = {}\n\n");
        out.append("function M.setup()\n");
        out.append("  vim.cmd('hi clear')\n");
        out.append("  if vim.fn.exists('syntax_on') then\n");
        out.append("    vim.cmd('syntax reset')\n");
        out.append("  end\n");
        out.append("  vim.g.colors_name = \"");
        let slug_name = sanitize_name(self.theme.name.as_str());
        out.append(slug_name.as_str());
        out.append("\"\n");
        out.append("  vim.o.termguicolors = true\n");
        out.append("  vim.o.background = \"");
        if self.is_dark_theme() {
            out.append("dark");
        } else {
            out.append("light");
        }
        out.append("\"\n\n");
        out.append("  -- Define highlight groups\n");
        out.append("  local highlights = {\n");
        assert(out@ =~= lua_header(*self.theme));
        out
    }

    fn footer(&self) -> (r: String)
        ensures
            r@ == lua_footer(),
    {
        let mut out = String::new();
        out.append("  }\n\n");
        out.append("  -- Set highlights\n");
        out.append("  for group, styles in pairs(highlights) do\n");
        out.append("    M.highlight(group, styles)\n");
        out.append("  end\n");
        out.append("end\n\n");
        out.append("-- Helper function to set highlights\n");
        out.append("function M.highlight(group, styles)\n");
        out.append("  vim.api.nvim_set_hl(0, group, {\n");
        out.append("    fg = styles.fg,\n");
        out.append("    bg = styles.bg,\n");
        out.append("    sp = styles.sp,\n");
        out.append("    bold = styles.bold,\n");
        out.append("    italic = styles.italic,\n");
        out.append("    underline = styles.underline,\n");
        out.append("    undercurl = styles.undercurl,\n");
        out.append("    strikethrough = styles.strikethrough,\n");
        out.append("    link = styles.link,\n");
        out.append("  })\n");
        out.append("end\n\n");
        out.append("return M\n");
        assert(out@ =~= lua_footer());
        out
    }

    /// The table entry for one group.
    fn format_highlight_table(&self, group: &str, highlight: &HighlightGroup) -> (r: String)
        ensures
            r@ == lua_line(group@, highlight@),
    {
        let mut out = String::new();
        out.append("    ");
        push_key(&mut out, group);
        match &highlight.link {
            Some(link) => {
                out.append(" = { link = \"");
                out.append(link.as_str());
                out.append("\" },\n");
                assert(out@ =~= lua_line(group@, highlight@));
                return out;
            },
            None => {},
        }
        let mut parts: Vec<String> = Vec::new();
        assert(texts(parts@) =~= Seq::<Seq<char>>::empty());
        push_color(&mut parts, "fg = \"", &highlight.fg);
        push_color(&mut parts, "bg = \"", &highlight.bg);
        push_color(&mut parts, "sp = \"", &highlight.sp);
        push_flag(&mut parts, highlight.bold, "bold = true");
        push_flag(&mut parts, highlight.italic, "italic = true");
        push_flag(&mut parts, highlight.underline, "underline = true");
        push_flag(&mut parts, highlight.undercurl, "undercurl = true");
        push_flag(&mut parts, highlight.strikethrough, "strikethrough = true");
        assert(texts(parts@) =~= lua_parts(highlight@));
        out.append(" = { ");
        let joined = join_strings(&parts, ", ");
        out.append(joined.as_str());
        out.append(" },\n");
        assert(out@ =~= lua_line(group@, highlight@));
        out
    }

    fn groups_text(&self) -> (r: String)
        ensures
            r@ == lua_groups(self.highlights@, self.highlights@.len() as int),
    {
        let ghost es = self.highlights@;
        let mut out = String::new();
        let mut i: usize = 0;
        while i < self.highlights.entries.len()
            invariant
                es == self.highlights@,
                i <= es.len(),
                out@ == lua_groups(es, i as int),
            decreases es.len() - i,
        {
            let name = self.highlights.entries[i].0.as_str();
            assert(es[i as int] == (name@, self.highlights.entries@[i as int].1@));
            let line = self.format_highlight_table(name, &self.highlights.entries[i].1);
            out.append(line.as_str());
            i = i + 1;
        }
        out
    }

    /// The whole module: header, one table entry per group in order, and the
    /// function that applies them.
    pub fn generate(&self) -> (r: String)
        ensures
            r@ == lua_text(*self.theme, self.highlights@),
    {
        let mut out = self.header();
        let groups = self.groups_text();
        out.append(groups.as_str());
        let footer = self.footer();
        out.append(footer.as_str());
        out
    }
}

} // verus!
