use vstd::prelude::*;

use crate::converter::{theme_dark, theme_is_dark};
use crate::render::{color_part, flag, lower_of, push_flag, render_color, sanitize_name, slug};
use crate::text::{join, join_strings, same_text, texts};
use crate::types::{index_of, lookup, opt_text, Entries, GroupView, HighlightGroup, Highlights, ThemeConfig};

verus! {

/// `dark` or `light`, as the theme reads.
pub open spec fn shade(t: ThemeConfig) -> Seq<char> {
    if theme_dark(t) {
        "dark"@
    } else {
        "light"@
    }
}

/// The lines before the groups.
pub open spec fn vim_header(t: ThemeConfig) -> Seq<char> {
    "\" "@ + t.name@ + "\n"@ + "\" Converted from VSCode Theme\n"@
        + "\" Maintainer: Auto-generated\n\n"@ + "set background="@ + shade(t) + "\n"@
        + "hi clear\n"@ + "if exists(\"syntax_on\")\n"@ + "  syntax reset\n"@ + "endif\n\n"@
        + "let g:colors_name = \""@ + slug(lower_of(t.name@)) + "\"\n\n"@
        + "\" Highlight groups\n"@
}

/// One color attribute, where it is present and reads.
pub open spec fn vim_attr(prefix: Seq<char>, o: Option<Seq<char>>) -> Seq<char> {
    match color_part(o) {
        Some(h) => prefix + h,
        None => Seq::empty(),
    }
}

/// The style words that are on, in a fixed order.
pub open spec fn flag_words(g: GroupView) -> Seq<Seq<char>> {
    flag(g.bold, "bold"@) + flag(g.italic, "italic"@) + flag(g.underline, "underline"@) + flag(
        g.undercurl,
        "undercurl"@,
    ) + flag(g.strikethrough, "strikethrough"@)
}

/// The style words joined by commas, or `NONE`.
pub open spec fn vim_style(g: GroupView) -> Seq<char> {
    let f = flag_words(g);
    if f.len() == 0 {
        "NONE"@
    } else {
        join(f, ","@)
    }
}

/// The statement for one group: a link, or its colors and style.
pub open spec fn vim_line(name: Seq<char>, g: GroupView) -> Seq<char> {
    match g.link {
        Some(l) => "hi link "@ + name + " "@ + l,
        None => "hi "@ + name + vim_attr(" guifg="@, g.fg) + vim_attr(" guibg="@, g.bg) + vim_attr(
            " guisp="@,
            g.sp,
        ) + " gui="@ + vim_style(g),
    }
}

/// The "Normal" group's line, where there is one.
pub open spec fn vim_normal(es: Entries) -> Seq<char> {
    match lookup(es, "Normal"@) {
        Some(g) => vim_line("Normal"@, g) + "\n"@,
        None => Seq::empty(),
    }
}

/// The lines of the first `n` groups but "Normal", in order.
pub open spec fn vim_groups(es: Entries, n: int) -> Seq<char>
    decreases n,
{
    if n <= 0 {
        Seq::empty()
    } else {
        let e = es[n - 1];
        vim_groups(es, n - 1) + if e.0 == "Normal"@ {
            Seq::empty()
        } else {
            vim_line(e.0, e.1) + "\n"@
        }
    }
}

/// Number of default links.
pub const DEFAULT_LINKS: usize = 7;

/// Default link `i`: a group, and the group it falls back to.
pub open spec fn default_link(i: int) -> (Seq<char>, Seq<char>) {
    if i == 0 {
        ("Conceal"@, "NonText"@)
    } else if i == 1 {
        ("Ignore"@, "NonText"@)
    } else if i == 2 {
        ("Debug"@, "Special"@)
    } else if i == 3 {
        ("Italic"@, "Normal"@)
    } else if i == 4 {
        ("StatusLineTerm"@, "StatusLine"@)
    } else if i == 5 {
        ("StatusLineTermNC"@, "StatusLineNC"@)
    } else {
        ("VisualNOS"@, "Visual"@)
    }
}

fn default_link_at(i: usize) -> (r: (&'static str, &'static str))
    requires
        i < DEFAULT_LINKS,
    ensures
        r.0@ == default_link(i as int).0,
        r.1@ == default_link(i as int).1,
{
    match i {
        0 => ("Conceal", "NonText"),
        1 => ("Ignore", "NonText"),
        2 => ("Debug", "Special"),
        3 => ("Italic", "Normal"),
        4 => ("StatusLineTerm", "StatusLine"),
        5 => ("StatusLineTermNC", "StatusLineNC"),
        _ => ("VisualNOS", "Visual"),
    }
}

/// Links for the first `n` default links whose group is missing.
pub open spec fn vim_links(es: Entries, n: int) -> Seq<char>
    decreases n,
{
    if n <= 0 {
        Seq::empty()
    } else {
        let (a, b) = default_link(n - 1);
        vim_links(es, n - 1) + if index_of(es, a) is None {
            "hi link "@ + a + " "@ + b + "\n"@
        } else {
            Seq::empty()
        }
    }
}

/// The whole Vim script.
pub open spec fn vim_text(t: ThemeConfig, es: Entries) -> Seq<char> {
    vim_header(t) + vim_normal(es) + vim_groups(es, es.len() as int) + "\n\" Default links\n"@
        + vim_links(es, DEFAULT_LINKS as int)
}

/// Writes a Vim color script for resolved groups.
pub struct VimGenerator<'a> {
    pub theme: &'a ThemeConfig,
    pub highlights: &'a Highlights,
}

fn push_attr(out: &mut String, prefix: &str, o: &Option<String>)
    ensures
        final(out)@ == old(out)@ + vim_attr(prefix@, opt_text(*o)),
{
    match render_color(o) {
        Some(h) => {
            out.append(prefix);
            out.append(h.as_str());
        },
        None => {},
    }
    assert(final(out)@ =~= old(out)@ + vim_attr(prefix@, opt_text(*o)));
}

impl<'a> VimGenerator<'a> {
    pub fn new(theme: &'a ThemeConfig, highlights: &'a Highlights) -> (r: Self)
        ensures
            r.theme == theme,
            r.highlights == highlights,
    {
        VimGenerator { theme, highlights }
    }

    /// Whether the theme is dark.
    fn is_dark_theme(&self) -> (r: bool)
        ensures
            r == theme_dark(*self.theme),
    {
        theme_is_dark(self.theme)
    }

    fn header(&self) -> (r: String)
        ensures
            r@ == vim_header(*self.theme),
    {
        let mut out = String::new();
        out.append("\" ");
        out.append(self.theme.name.as_str());
        out.append("\n");
        out.append("\" Converted from VSCode Theme\n");
        out.append("\" Maintainer: Auto-generated\n\n");
        out.append("set background=");
        if self.is_dark_theme() {
            out.append("dark");
        } else {
            out.append("light");
        }
        out.append("\n");
        out.append("hi clear\n");
        out.append("if exists(\"syntax_on\")\n");
        out.append("  syntax reset\n");
        out.append("endif\n\n");
        out.append("let g:colors_name = \"");
        let slug_name = sanitize_name(self.theme.name.as_str());
        out.append(slug_name.as_str());
        out.append("\"\n\n");
        out.append("\" Highlight groups\n");
        assert(out@ =~= vim_header(*self.theme));
        out
    }

    /// The statement for one group.
    pub fn format_highlight_group(&self, group: &str, highlight: &HighlightGroup) -> (r: String)
        ensures
            r@ == vim_line(group@, highlight@),
    {
        let mut out = String::new();
        match &highlight.link {
            Some(link) => {
                out.append("hi link ");
                out.append(group);
                out.append(" ");
                out.append(link.as_str());
                assert(out@ =~= vim_line(group@, highlight@));
                return out;
            },
            None => {},
        }
        out.append("hi ");
        out.append(group);
        push_attr(&mut out, " guifg=", &highlight.fg);
        push_attr(&mut out, " guibg=", &highlight.bg);
        push_attr(&mut out, " guisp=", &highlight.sp);
        let mut words: Vec<String> = Vec::new();
        assert(texts(words@) =~= Seq::<Seq<char>>::empty());
        push_flag(&mut words, highlight.bold, "bold");
        push_flag(&mut words, highlight.italic, "italic");
        push_flag(&mut words, highlight.underline, "underline");
        push_flag(&mut words, highlight.undercurl, "undercurl");
        push_flag(&mut words, highlight.strikethrough, "strikethrough");
        assert(texts(words@) =~= flag_words(highlight@));
        out.append(" gui=");
        if words.len() == 0 {
            out.append("NONE");
        } else {
            let style = join_strings(&words, ",");
            out.append(style.as_str());
        }
        assert(out@ =~= vim_line(group@, highlight@));
        out
    }

    fn normal_text(&self) -> (r: String)
        ensures
            r@ == vim_normal(self.highlights@),
    {
        let mut out = String::new();
        match self.highlights.get("Normal") {
            Some(normal) => {
                let line = self.format_highlight_group("Normal", normal);
                out.append(line.as_str());
                out.append("\n");
            },
            None => {},
        }
        assert(out@ =~= vim_normal(self.highlights@));
        out
    }

    fn groups_text(&self) -> (r: String)
        ensures
            r@ == vim_groups(self.highlights@, self.highlights@.len() as int),
    {
        let ghost es = self.highlights@;
        let mut out = String::new();
        let mut i: usize = 0;
        while i < self.highlights.entries.len()
            invariant
                es == self.highlights@,
                i <= es.len(),
                out@ == vim_groups(es, i as int),
            decreases es.len() - i,
        {
            let name = self.highlights.entries[i].0.as_str();
            assert(es[i as int] == (name@, self.highlights.entries@[i as int].1@));
            if !same_text(name, "Normal") {
                let line = self.format_highlight_group(name, &self.highlights.entries[i].1);
                out.append(line.as_str());
                out.append("\n");
            }
            assert(out@ =~= vim_groups(es, i + 1));
            i = i + 1;
        }
        out
    }

    fn links_text(&self) -> (r: String)
        ensures
            r@ == vim_links(self.highlights@, DEFAULT_LINKS as int),
    {
        let ghost es = self.highlights@;
        let mut out = String::new();
        let mut k: usize = 0;
        while k < DEFAULT_LINKS
            invariant
                es == self.highlights@,
                k <= DEFAULT_LINKS,
                out@ == vim_links(es, k as int),
            decreases DEFAULT_LINKS - k,
        {
            let (group, target) = default_link_at(k);
            if !self.highlights.contains_key(group) {
                out.append("hi link ");
                out.append(group);
                out.append(" ");
                out.append(target);
                out.append("\n");
            }
            assert(out@ =~= vim_links(es, k + 1));
            k = k + 1;
        }
        out
    }

    /// The whole script: header, "Normal" first, the other groups in order, and
    /// a default link for each listed group that is missing.
    pub fn generate(&self) -> (r: String)
        ensures
            r@ == vim_text(*self.theme, self.highlights@),
    {
        let mut out = self.header();
        let normal = self.normal_text();
        out.append(normal.as_str());
        let groups = self.groups_text();
        out.append(groups.as_str());
        out.append("\n\" Default links\n");
        let links = self.links_text();
        out.append(links.as_str());
        out
    }
}

} // verus!
