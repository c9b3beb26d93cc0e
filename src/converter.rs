use vstd::prelude::*;

use crate::color::{is_dark_color, is_dark_spec};
use crate::lua_gen::{lua_text, LuaGenerator};
use crate::mapping::{
    alias_rule, alias_rule_at, editor_rule, editor_rule_at, get_vim_groups_for_scope,
    get_vim_groups_for_semantic_token, lemma_alias_names_distinct, scope_groups, semantic_groups, Attr, ALIAS_RULES,
    EDITOR_RULES,
};
use crate::text::{same_text, texts};
use crate::types::{
    blank_group, color_lookup, find_color, lemma_put_lookup, lemma_put_unique, lookup, names_unique, opt_text, put,
    put_attr, text_of, Entries, GroupView, HighlightGroup, Highlights, SemanticSetting,
    ThemeConfig, TokenColor, TokenScope, TokenSettings,
};
use crate::vim_gen::{vim_text, VimGenerator};

verus! {

/// Which of the two styling scripts to produce.
#[derive(Debug, Clone, Copy, PartialEq, Eq, Structural)]
pub enum OutputFormat {
    Vim,
    Lua,
    Both,
}

/// How to convert. `include_lsp` keeps the semantic-token pass, and
/// `include_treesitter` the pass that copies groups to their tree-sitter names.
#[derive(Debug, Clone)]
pub struct ConversionOptions {
    pub output_format: OutputFormat,
    pub custom_name: Option<String>,
    pub include_treesitter: bool,
    pub include_lsp: bool,
}

/// Whether a theme is dark: its type says so, or else its background reads as dark.
pub open spec fn theme_dark(t: ThemeConfig) -> bool {
    if t.theme_type@ == "dark"@ {
        true
    } else if t.theme_type@ == "light"@ {
        false
    } else {
        match color_lookup(t.colors@, "editor.background"@) {
            Some(bg) => is_dark_spec(bg),
            None => false,
        }
    }
}

/// The "Normal" group: the theme's editor colors, or the defaults for its shade.
pub open spec fn normal_group(t: ThemeConfig) -> GroupView {
    let dark = theme_dark(t);
    let fg = match color_lookup(t.colors@, "editor.foreground"@) {
        Some(c) => c,
        None => if dark {
            "#d4d4d4"@
        } else {
            "#000000"@
        },
    };
    let bg = match color_lookup(t.colors@, "editor.background"@) {
        Some(c) => c,
        None => if dark {
            "#1e1e1e"@
        } else {
            "#ffffff"@
        },
    };
    GroupView { fg: Some(fg), bg: Some(bg), ..blank_group() }
}

/// The first pass: only "Normal".
pub open spec fn base_pass(t: ThemeConfig) -> Entries {
    put(Seq::empty(), "Normal"@, normal_group(t))
}

/// The first `n` editor-table entries applied to `es`: each key that the theme
/// defines sets one attribute of its group.
pub open spec fn editor_pass(es: Entries, colors: Seq<(String, String)>, n: int) -> Entries
    decreases n,
{
    if n <= 0 {
        es
    } else {
        let prev = editor_pass(es, colors, n - 1);
        let (key, group, attr) = editor_rule(n - 1);
        match color_lookup(colors, key) {
            Some(v) => put_attr(prev, group, attr, v),
            None => prev,
        }
    }
}

/// Each of the first `n` names set to `g`.
pub open spec fn put_all(es: Entries, names: Seq<Seq<char>>, g: GroupView, n: int) -> Entries
    decreases n,
{
    if n <= 0 {
        es
    } else {
        put(put_all(es, names, g, n - 1), names[n - 1], g)
    }
}

/// A fresh group with the colors of a token rule.
pub open spec fn rule_group(s: TokenSettings) -> GroupView {
    GroupView { fg: opt_text(s.foreground), bg: opt_text(s.background), ..blank_group() }
}

/// A fresh group with the foreground of a semantic style.
pub open spec fn semantic_group(s: SemanticSetting) -> GroupView {
    GroupView { fg: opt_text(s.foreground), ..blank_group() }
}

/// The groups of one scope set to `g`.
pub open spec fn scope_step(es: Entries, scope: Seq<char>, g: GroupView) -> Entries {
    match scope_groups(scope) {
        Some(gs) => put_all(es, gs, g, gs.len() as int),
        None => es,
    }
}

/// The scopes a rule names.
pub open spec fn rule_scopes(r: TokenColor) -> Seq<Seq<char>> {
    match r.scope {
        TokenScope::Single(s) => seq![s@],
        TokenScope::Multiple(v) => texts(v@),
    }
}

/// The first `n` scopes, in order, each setting its groups to `g`.
pub open spec fn scopes_pass(es: Entries, scopes: Seq<Seq<char>>, g: GroupView, n: int) -> Entries
    decreases n,
{
    if n <= 0 {
        es
    } else {
        scope_step(scopes_pass(es, scopes, g, n - 1), scopes[n - 1], g)
    }
}

/// One token rule applied.
pub open spec fn rule_step(es: Entries, r: TokenColor) -> Entries {
    let scopes = rule_scopes(r);
    scopes_pass(es, scopes, rule_group(r.settings), scopes.len() as int)
}

/// The first `n` token rules applied in order.
pub open spec fn rules_pass(es: Entries, rules: Seq<TokenColor>, n: int) -> Entries
    decreases n,
{
    if n <= 0 {
        es
    } else {
        rule_step(rules_pass(es, rules, n - 1), rules[n - 1])
    }
}

/// One semantic style applied.
pub open spec fn token_step(es: Entries, token: (String, SemanticSetting)) -> Entries {
    match semantic_groups(token.0@) {
        Some(gs) => put_all(es, gs, semantic_group(token.1), gs.len() as int),
        None => es,
    }
}

/// The first `n` semantic styles applied in order.
pub open spec fn tokens_pass(es: Entries, tokens: Seq<(String, SemanticSetting)>, n: int) -> Entries
    decreases n,
{
    if n <= 0 {
        es
    } else {
        token_step(tokens_pass(es, tokens, n - 1), tokens[n - 1])
    }
}

/// The semantic pass, where the theme has semantic styles.
pub open spec fn semantic_pass(es: Entries, t: ThemeConfig) -> Entries {
    match t.semantic_token_colors {
        Some(stc) => tokens_pass(es, stc.tokens@, stc.tokens@.len() as int),
        None => es,
    }
}

/// The copies that the first `n` alias entries ask for, read from `snap`.
pub open spec fn alias_writes(snap: Entries, n: int) -> Entries
    decreases n,
{
    if n <= 0 {
        Seq::empty()
    } else {
        let prev = alias_writes(snap, n - 1);
        let (base, alias) = alias_rule(n - 1);
        match lookup(snap, base) {
            Some(g) => prev.push((alias, g)),
            None => prev,
        }
    }
}

/// The first `n` writes applied in order.
pub open spec fn apply_writes(es: Entries, ws: Entries, n: int) -> Entries
    decreases n,
{
    if n <= 0 {
        es
    } else {
        let w = ws[n - 1];
        put(apply_writes(es, ws, n - 1), w.0, w.1)
    }
}

/// The alias pass: each alias gets a copy of its group as it stands before the pass.
pub open spec fn alias_pass(es: Entries) -> Entries {
    let ws = alias_writes(es, ALIAS_RULES as int);
    apply_writes(es, ws, ws.len() as int)
}

/// The groups after the editor passes and the token-rule pass.
pub open spec fn syntax_resolved(t: ThemeConfig) -> Entries {
    let e2 = editor_pass(base_pass(t), t.colors@, EDITOR_RULES as int);
    rules_pass(e2, t.token_colors@, t.token_colors@.len() as int)
}

/// All groups of a theme, after the five passes that `o` keeps.
pub open spec fn resolve(t: ThemeConfig, o: ConversionOptions) -> Entries {
    let e3 = syntax_resolved(t);
    let e4 = if o.include_lsp {
        semantic_pass(e3, t)
    } else {
        e3
    };
    if o.include_treesitter {
        alias_pass(e4)
    } else {
        e4
    }
}

/// Whether the Vim script is asked for.
pub open spec fn wants_vim(f: OutputFormat) -> bool {
    f == OutputFormat::Vim || f == OutputFormat::Both
}

/// Whether the Lua module is asked for.
pub open spec fn wants_lua(f: OutputFormat) -> bool {
    f == OutputFormat::Lua || f == OutputFormat::Both
}

/// `after` is `before` converted: the groups resolved afresh from the theme and
/// the options, and each script asked for rendered from them; a script not asked
/// for is cleared.
pub open spec fn converted(before: ThemeConverter, after: ThemeConverter) -> bool {
    &&& after.theme == before.theme
    &&& after.options == before.options
    &&& after.highlights@ == resolve(before.theme, before.options)
    &&& if wants_vim(before.options.output_format) {
        opt_text(after.vim_content) == Some(vim_text(before.theme, after.highlights@))
    } else {
        after.vim_content is None
    }
    &&& if wants_lua(before.options.output_format) {
        opt_text(after.lua_content) == Some(lua_text(before.theme, after.highlights@))
    } else {
        after.lua_content is None
    }
}

/// The name that output files take: the one given in the options, else the theme's.
pub open spec fn theme_name(t: ThemeConfig, o: ConversionOptions) -> Seq<char> {
    match o.custom_name {
        Some(n) => n@,
        None => t.name@,
    }
}

/// Converting again what was converted changes nothing: the same groups and the
/// same scripts, character for character.
pub proof fn lemma_convert_twice(c0: ThemeConverter, c1: ThemeConverter, c2: ThemeConverter)
    requires
        converted(c0, c1),
        converted(c1, c2),
    ensures
        c2.highlights@ == c1.highlights@,
        opt_text(c2.vim_content) == opt_text(c1.vim_content),
        opt_text(c2.lua_content) == opt_text(c1.lua_content),
{
}

/// Two conversions of the same theme with the same options give the same groups,
/// and the same text for each script asked for.
pub proof fn lemma_convert_deterministic(
    a0: ThemeConverter,
    a1: ThemeConverter,
    b0: ThemeConverter,
    b1: ThemeConverter,
)
    requires
        a0.theme == b0.theme,
        a0.options == b0.options,
        converted(a0, a1),
        converted(b0, b1),
    ensures
        a1.highlights@ == b1.highlights@,
        wants_vim(a0.options.output_format) ==> opt_text(a1.vim_content) == opt_text(b1.vim_content),
        wants_lua(a0.options.output_format) ==> opt_text(a1.lua_content) == opt_text(b1.lua_content),
{
}

proof fn lemma_put_all_unique(es: Entries, names: Seq<Seq<char>>, g: GroupView, n: int)
    requires
        names_unique(es),
    ensures
        names_unique(put_all(es, names, g, n)),
    decreases n,
{
    if n > 0 {
        lemma_put_all_unique(es, names, g, n - 1);
        lemma_put_unique(put_all(es, names, g, n - 1), names[n - 1], g);
    }
}

proof fn lemma_editor_pass_unique(es: Entries, colors: Seq<(String, String)>, n: int)
    requires
        names_unique(es),
    ensures
        names_unique(editor_pass(es, colors, n)),
    decreases n,
{
    if n > 0 {
        lemma_editor_pass_unique(es, colors, n - 1);
        let prev = editor_pass(es, colors, n - 1);
        let (key, group, attr) = editor_rule(n - 1);
        let g = match lookup(prev, group) {
            Some(g) => g,
            None => blank_group(),
        };
        match color_lookup(colors, key) {
            Some(v) => lemma_put_unique(prev, group, crate::types::with_attr(g, attr, v)),
            None => {},
        }
    }
}

proof fn lemma_scopes_pass_unique(es: Entries, scopes: Seq<Seq<char>>, g: GroupView, n: int)
    requires
        names_unique(es),
    ensures
        names_unique(scopes_pass(es, scopes, g, n)),
    decreases n,
{
    if n > 0 {
        lemma_scopes_pass_unique(es, scopes, g, n - 1);
        let prev = scopes_pass(es, scopes, g, n - 1);
        match scope_groups(scopes[n - 1]) {
            Some(gs) => lemma_put_all_unique(prev, gs, g, gs.len() as int),
            None => {},
        }
    }
}

proof fn lemma_rules_pass_unique(es: Entries, rules: Seq<TokenColor>, n: int)
    requires
        names_unique(es),
    ensures
        names_unique(rules_pass(es, rules, n)),
    decreases n,
{
    if n > 0 {
        lemma_rules_pass_unique(es, rules, n - 1);
        let scopes = rule_scopes(rules[n - 1]);
        lemma_scopes_pass_unique(
            rules_pass(es, rules, n - 1),
            scopes,
            rule_group(rules[n - 1].settings),
            scopes.len() as int,
        );
    }
}

proof fn lemma_tokens_pass_unique(es: Entries, tokens: Seq<(String, SemanticSetting)>, n: int)
    requires
        names_unique(es),
    ensures
        names_unique(tokens_pass(es, tokens, n)),
    decreases n,
{
    if n > 0 {
        lemma_tokens_pass_unique(es, tokens, n - 1);
        let prev = tokens_pass(es, tokens, n - 1);
        match semantic_groups(tokens[n - 1].0@) {
            Some(gs) => lemma_put_all_unique(prev, gs, semantic_group(tokens[n - 1].1), gs.len() as int),
            None => {},
        }
    }
}

proof fn lemma_apply_writes_unique(es: Entries, ws: Entries, n: int)
    requires
        names_unique(es),
    ensures
        names_unique(apply_writes(es, ws, n)),
    decreases n,
{
    if n > 0 {
        lemma_apply_writes_unique(es, ws, n - 1);
        lemma_put_unique(apply_writes(es, ws, n - 1), ws[n - 1].0, ws[n - 1].1);
    }
}

/// Whether `scope` maps to the group `x`.
pub open spec fn scope_maps_to(scope: Seq<char>, x: Seq<char>) -> bool {
    match scope_groups(scope) {
        Some(gs) => gs.contains(x),
        None => false,
    }
}

proof fn lemma_put_all_lookup(es: Entries, names: Seq<Seq<char>>, g: GroupView, n: int, x: Seq<char>)
    requires
        0 <= n <= names.len(),
    ensures
        lookup(put_all(es, names, g, n), x) == if names.subrange(0, n).contains(x) {
            Some(g)
        } else {
            lookup(es, x)
        },
    decreases n,
{
    if n > 0 {
        lemma_put_all_lookup(es, names, g, n - 1, x);
        lemma_put_lookup(put_all(es, names, g, n - 1), names[n - 1], g, x);
        assert(names.subrange(0, n) =~= names.subrange(0, n - 1).push(names[n - 1]));
        assert(names.subrange(0, n)[n - 1] == names[n - 1]);
        if names[n - 1] == x {
            assert(names.subrange(0, n).contains(x));
        }
        if names.subrange(0, n - 1).contains(x) {
            let j = choose|j: int| 0 <= j < n - 1 && #[trigger] names.subrange(0, n - 1)[j] == x;
            assert(names.subrange(0, n)[j] == x);
        }
        if names.subrange(0, n).contains(x) && names[n - 1] != x {
            let j = choose|j: int| 0 <= j < n && #[trigger] names.subrange(0, n)[j] == x;
            assert(names.subrange(0, n - 1)[j] == x);
        }
    } else {
        assert(names.subrange(0, 0) =~= Seq::<Seq<char>>::empty());
    }
}

proof fn lemma_scopes_pass_lookup(es: Entries, scopes: Seq<Seq<char>>, g: GroupView, n: int, x: Seq<char>)
    requires
        0 <= n <= scopes.len(),
    ensures
        lookup(scopes_pass(es, scopes, g, n), x) == if exists|j: int|
            0 <= j < n && scope_maps_to(#[trigger] scopes[j], x) {
            Some(g)
        } else {
            lookup(es, x)
        },
    decreases n,
{
    if n > 0 {
        lemma_scopes_pass_lookup(es, scopes, g, n - 1, x);
        let prev = scopes_pass(es, scopes, g, n - 1);
        match scope_groups(scopes[n - 1]) {
            Some(gs) => {
                lemma_put_all_lookup(prev, gs, g, gs.len() as int, x);
                assert(gs.subrange(0, gs.len() as int) =~= gs);
            },
            None => {},
        }
        if exists|j: int| 0 <= j < n && scope_maps_to(#[trigger] scopes[j], x) {
            let j = choose|j: int| 0 <= j < n && scope_maps_to(#[trigger] scopes[j], x);
            if j < n - 1 {
                assert(exists|j: int| 0 <= j < n - 1 && scope_maps_to(#[trigger] scopes[j], x));
            }
        }
    }
}

/// A token rule replaces and does not merge: each group that one of its scopes
/// maps to ends up holding the rule's foreground and background and nothing
/// else, whatever it held before; every other group keeps what it held.
pub proof fn lemma_rule_replaces(es: Entries, r: TokenColor, x: Seq<char>)
    ensures
        lookup(rule_step(es, r), x) == if exists|j: int|
            0 <= j < rule_scopes(r).len() && scope_maps_to(#[trigger] rule_scopes(r)[j], x) {
            Some(
                GroupView {
                    fg: opt_text(r.settings.foreground),
                    bg: opt_text(r.settings.background),
                    ..blank_group()
                },
            )
        } else {
            lookup(es, x)
        },
{
    let scopes = rule_scopes(r);
    lemma_scopes_pass_lookup(es, scopes, rule_group(r.settings), scopes.len() as int, x);
}

proof fn lemma_apply_writes_prefix(es: Entries, ws: Entries, w: (Seq<char>, GroupView), m: int)
    requires
        0 <= m <= ws.len(),
    ensures
        apply_writes(es, ws.push(w), m) == apply_writes(es, ws, m),
    decreases m,
{
    if m > 0 {
        lemma_apply_writes_prefix(es, ws, w, m - 1);
        assert(ws.push(w)[m - 1] == ws[m - 1]);
    }
}

/// The groups after the writes of the first `n` alias entries, read from `snap`.
pub open spec fn aliases_applied(es: Entries, snap: Entries, n: int) -> Entries {
    let ws = alias_writes(snap, n);
    apply_writes(es, ws, ws.len() as int)
}

proof fn lemma_aliases_step(es: Entries, snap: Entries, n: int)
    requires
        0 < n,
    ensures
        aliases_applied(es, snap, n) == match lookup(snap, alias_rule(n - 1).0) {
            Some(g) => put(aliases_applied(es, snap, n - 1), alias_rule(n - 1).1, g),
            None => aliases_applied(es, snap, n - 1),
        },
{
    let prev = alias_writes(snap, n - 1);
    match lookup(snap, alias_rule(n - 1).0) {
        Some(g) => {
            let w = (alias_rule(n - 1).1, g);
            lemma_apply_writes_prefix(es, prev, w, prev.len() as int);
            assert(prev.push(w)[prev.len() as int] == w);
        },
        None => {},
    }
}

proof fn lemma_aliases_lookup(es: Entries, snap: Entries, n: int, x: Seq<char>)
    requires
        0 <= n <= ALIAS_RULES,
    ensures
        forall|i: int|
            0 <= i < n && #[trigger] alias_rule(i).1 == x && lookup(snap, alias_rule(i).0) is Some
                ==> lookup(aliases_applied(es, snap, n), x) == lookup(snap, alias_rule(i).0),
        (forall|i: int|
            0 <= i < n && #[trigger] alias_rule(i).1 == x ==> lookup(snap, alias_rule(i).0) is None)
            ==> lookup(aliases_applied(es, snap, n), x) == lookup(es, x),
    decreases n,
{
    if n > 0 {
        lemma_aliases_lookup(es, snap, n - 1, x);
        lemma_aliases_step(es, snap, n);
        lemma_alias_names_distinct();
        let (b, a) = alias_rule(n - 1);
        match lookup(snap, b) {
            Some(g) => lemma_put_lookup(aliases_applied(es, snap, n - 1), a, g, x),
            None => {},
        }
        assert forall|i: int|
            0 <= i < n && #[trigger] alias_rule(i).1 == x && lookup(snap, alias_rule(i).0) is Some
            implies lookup(aliases_applied(es, snap, n), x) == lookup(snap, alias_rule(i).0) by {
            if i < n - 1 && a == x {
                assert(alias_rule(i).1 != alias_rule(n - 1).1);
            }
        }
    } else {
        assert(alias_writes(snap, 0).len() == 0);
    }
}

/// The alias pass gives each alias a copy of its group as the group stood before
/// the pass. An alias whose group is missing is left as it was (absent, where it
/// was absent), and so is every name that no alias entry names.
pub proof fn lemma_alias_pass(es: Entries, x: Seq<char>)
    ensures
        forall|i: int|
            0 <= i < ALIAS_RULES && #[trigger] alias_rule(i).1 == x && lookup(es, alias_rule(i).0) is Some
                ==> lookup(alias_pass(es), x) == lookup(es, alias_rule(i).0),
        (forall|i: int|
            0 <= i < ALIAS_RULES && #[trigger] alias_rule(i).1 == x ==> lookup(es, alias_rule(i).0) is None)
            ==> lookup(alias_pass(es), x) == lookup(es, x),
{
    lemma_aliases_lookup(es, es, ALIAS_RULES as int, x);
}

/// Resolution gives each group name at most one record.
pub proof fn lemma_resolve_names_unique(t: ThemeConfig, o: ConversionOptions)
    ensures
        names_unique(resolve(t, o)),
{
    let e0 = Seq::<(Seq<char>, GroupView)>::empty();
    lemma_put_unique(e0, "Normal"@, normal_group(t));
    let e1 = base_pass(t);
    lemma_editor_pass_unique(e1, t.colors@, EDITOR_RULES as int);
    let e2 = editor_pass(e1, t.colors@, EDITOR_RULES as int);
    lemma_rules_pass_unique(e2, t.token_colors@, t.token_colors@.len() as int);
    let e3 = syntax_resolved(t);
    match t.semantic_token_colors {
        Some(stc) => lemma_tokens_pass_unique(e3, stc.tokens@, stc.tokens@.len() as int),
        None => {},
    }
    let e4 = if o.include_lsp {
        semantic_pass(e3, t)
    } else {
        e3
    };
    let ws = alias_writes(e4, ALIAS_RULES as int);
    lemma_apply_writes_unique(e4, ws, ws.len() as int);
}

/// The keys of the first `n` editor-table entries that the theme does not define,
/// in table order.
pub open spec fn missing_keys(colors: Seq<(String, String)>, n: int) -> Seq<Seq<char>>
    decreases n,
{
    if n <= 0 {
        Seq::empty()
    } else {
        let key = editor_rule(n - 1).0;
        missing_keys(colors, n - 1) + if color_lookup(colors, key) is None {
            seq![key]
        } else {
            Seq::empty()
        }
    }
}

/// The editor-table keys that the theme leaves out, each worth a warning; the
/// editor pass skips them.
pub fn missing_editor_keys(theme: &ThemeConfig) -> (r: Vec<&'static str>)
    ensures
        r@.map_values(|s: &'static str| s@) == missing_keys(theme.colors@, EDITOR_RULES as int),
{
    let mut out: Vec<&'static str> = Vec::new();
    let mut i: usize = 0;
    assert(out@.map_values(|s: &'static str| s@) =~= missing_keys(theme.colors@, 0));
    while i < EDITOR_RULES
        invariant
            i <= EDITOR_RULES,
            out@.map_values(|s: &'static str| s@) == missing_keys(theme.colors@, i as int),
        decreases EDITOR_RULES - i,
    {
        let (key, _, _) = editor_rule_at(i);
        if find_color(&theme.colors, key).is_none() {
            out.push(key);
        }
        assert(out@.map_values(|s: &'static str| s@) =~= missing_keys(theme.colors@, i + 1));
        i = i + 1;
    }
    out
}

/// Whether a theme is dark: its type, or else its editor background.
pub fn theme_is_dark(t: &ThemeConfig) -> (r: bool)
    ensures
        r == theme_dark(*t),
{
    if same_text(t.theme_type.as_str(), "dark") {
        return true;
    } else if same_text(t.theme_type.as_str(), "light") {
        return false;
    }
    match find_color(&t.colors, "editor.background") {
        Some(bg) => is_dark_color(bg.as_str()),
        None => false,
    }
}

/// Sets each of `names` to a copy of `g`.
fn insert_all(hl: &mut Highlights, names: &Vec<&'static str>, g: &HighlightGroup)
    ensures
        final(hl)@ == put_all(
            old(hl)@,
            names@.map_values(|s: &'static str| s@),
            g@,
            names@.len() as int,
        ),
{
    let ghost gs = names@.map_values(|s: &'static str| s@);
    let mut i: usize = 0;
    while i < names.len()
        invariant
            i <= names@.len(),
            gs == names@.map_values(|s: &'static str| s@),
            hl@ == put_all(old(hl)@, gs, g@, i as int),
        decreases names@.len() - i,
    {
        hl.insert(names[i], g.duplicate());
        i = i + 1;
    }
}

/// The groups of one scope set to `g`.
fn apply_scope(hl: &mut Highlights, scope: &str, g: &HighlightGroup)
    ensures
        final(hl)@ == scope_step(old(hl)@, scope@, g@),
{
    match get_vim_groups_for_scope(scope) {
        Some(names) => insert_all(hl, &names, g),
        None => {},
    }
}

/// A fresh group holding the colors of a token rule.
fn group_of_rule(s: &TokenSettings) -> (r: HighlightGroup)
    ensures
        r@ == rule_group(*s),
{
    let mut g = HighlightGroup::default();
    match &s.foreground {
        Some(fg) => g.fg = Some(fg.clone()),
        None => {},
    }
    match &s.background {
        Some(bg) => g.bg = Some(bg.clone()),
        None => {},
    }
    g
}

/// One token rule applied: each scope it names, in order.
fn apply_rule(hl: &mut Highlights, rule: &TokenColor)
    ensures
        final(hl)@ == rule_step(old(hl)@, *rule),
{
    let g = group_of_rule(&rule.settings);
    match &rule.scope {
        TokenScope::Single(s) => {
            apply_scope(hl, s.as_str(), &g);
            proof {
                let scopes = rule_scopes(*rule);
                assert(scopes_pass(old(hl)@, scopes, g@, 0) == old(hl)@);
            }
        },
        TokenScope::Multiple(v) => {
            let ghost scopes = texts(v@);
            let mut i: usize = 0;
            while i < v.len()
                invariant
                    i <= v@.len(),
                    scopes == texts(v@),
                    scopes == rule_scopes(*rule),
                    g@ == rule_group(rule.settings),
                    hl@ == scopes_pass(old(hl)@, scopes, g@, i as int),
                decreases v@.len() - i,
            {
                apply_scope(hl, v[i].as_str(), &g);
                i = i + 1;
            }
        },
    }
}

/// One semantic style applied.
fn apply_token(hl: &mut Highlights, token: &(String, SemanticSetting))
    ensures
        final(hl)@ == token_step(old(hl)@, *token),
{
    match get_vim_groups_for_semantic_token(token.0.as_str()) {
        Some(names) => {
            let mut g = HighlightGroup::default();
            match &token.1.foreground {
                Some(fg) => g.fg = Some(fg.clone()),
                None => {},
            }
            insert_all(hl, &names, &g);
        },
        None => {},
    }
}

/// Converts a theme into highlight groups and styling scripts.
pub struct ThemeConverter {
    pub theme: ThemeConfig,
    pub options: ConversionOptions,
    pub highlights: Highlights,
    pub vim_content: Option<String>,
    pub lua_content: Option<String>,
}

impl ThemeConverter {
    /// A converter with no group resolved and no script yet.
    pub fn new(theme: ThemeConfig, options: ConversionOptions) -> (r: Self)
        ensures
            r.theme == theme,
            r.options == options,
            r.highlights@ == Seq::<(Seq<char>, GroupView)>::empty(),
            r.vim_content is None,
            r.lua_content is None,
    {
        ThemeConverter {
            theme,
            options,
            highlights: Highlights::new(),
            vim_content: None,
            lua_content: None,
        }
    }

    /// Whether the theme is dark.
    fn is_dark_theme(&self) -> (r: bool)
        ensures
            r == theme_dark(self.theme),
    {
        theme_is_dark(&self.theme)
    }

    /// Sets the group `group` to `g`.
    fn add_highlight(&mut self, group: &str, g: HighlightGroup)
        ensures
            final(self).highlights@ == put(old(self).highlights@, group@, g@),
            final(self).theme == old(self).theme,
            final(self).options == old(self).options,
            final(self).vim_content == old(self).vim_content,
            final(self).lua_content == old(self).lua_content,
    {
        self.highlights.insert(group, g);
    }

    /// Sets one color attribute of the group `group`.
    fn add_highlight_attr(&mut self, group: &str, attr: Attr, value: &str)
        ensures
            final(self).highlights@ == put_attr(old(self).highlights@, group@, attr, value@),
            final(self).theme == old(self).theme,
            final(self).options == old(self).options,
            final(self).vim_content == old(self).vim_content,
            final(self).lua_content == old(self).lua_content,
    {
        self.highlights.insert_attr(group, attr, value);
    }

    /// Sets the "Normal" group from the theme's editor colors, or the defaults for
    /// its shade; other groups are kept.
    fn apply_basic_mappings(&mut self)
        ensures
            final(self).highlights@ == put(old(self).highlights@, "Normal"@, normal_group(old(self).theme)),
            final(self).theme == old(self).theme,
            final(self).options == old(self).options,
            final(self).vim_content == old(self).vim_content,
            final(self).lua_content == old(self).lua_content,
    {
        let dark = self.is_dark_theme();
        let fg = match find_color(&self.theme.colors, "editor.foreground") {
            Some(c) => c.clone(),
            None => if dark {
                text_of("#d4d4d4")
            } else {
                text_of("#000000")
            },
        };
        let bg = match find_color(&self.theme.colors, "editor.background") {
            Some(c) => c.clone(),
            None => if dark {
                text_of("#1e1e1e")
            } else {
                text_of("#ffffff")
            },
        };
        let mut normal = HighlightGroup::default();
        normal.fg = Some(fg);
        normal.bg = Some(bg);
        
        self.add_highlight("Normal", normal);
    }

    /// Copies each editor color that the theme defines to its group.
    fn apply_editor_mappings(&mut self)
        ensures
            final(self).highlights@ == editor_pass(
                old(self).highlights@,
                old(self).theme.colors@,
                EDITOR_RULES as int,
            ),
            final(self).theme == old(self).theme,
            final(self).options == old(self).options,
            final(self).vim_content == old(self).vim_content,
            final(self).lua_content == old(self).lua_content,
    {
        let mut i: usize = 0;
        while i < EDITOR_RULES
            invariant
                i <= EDITOR_RULES,
                self.highlights@ == editor_pass(
                    old(self).highlights@,
                    old(self).theme.colors@,
                    i as int,
                ),
                self.theme == old(self).theme,
                self.options == old(self).options,
                self.vim_content == old(self).vim_content,
                self.lua_content == old(self).lua_content,
            decreases EDITOR_RULES - i,
        {
            let (key, group, attr) = editor_rule_at(i);
            match find_color(&self.theme.colors, key) {
                Some(c) => {
                    let v = c.clone();
                    self.add_highlight_attr(group, attr, v.as_str());
                },
                None => {},
            }
            i = i + 1;
        }
    }

    /// Applies the token rules, then (where kept) the semantic styles.
    fn apply_syntax_mappings(&mut self)
        ensures
            final(self).highlights@ == ({
                let e3 = rules_pass(
                    old(self).highlights@,
                    old(self).theme.token_colors@,
                    old(self).theme.token_colors@.len() as int,
                );
                if old(self).options.include_lsp {
                    semantic_pass(e3, old(self).theme)
                } else {
                    e3
                }
            }),
            final(self).theme == old(self).theme,
            final(self).options == old(self).options,
            final(self).vim_content == old(self).vim_content,
            final(self).lua_content == old(self).lua_content,
    {
        let mut i: usize = 0;
        while i < self.theme.token_colors.len()
            invariant
                i <= self.theme.token_colors@.len(),
                self.highlights@ == rules_pass(
                    old(self).highlights@,
                    old(self).theme.token_colors@,
                    i as int,
                ),
                self.theme == old(self).theme,
                self.options == old(self).options,
                self.vim_content == old(self).vim_content,
                self.lua_content == old(self).lua_content,
            decreases self.theme.token_colors@.len() - i,
        {
            apply_rule(&mut self.highlights, &self.theme.token_colors[i]);
            i = i + 1;
        }
        if self.options.include_lsp {
            match &self.theme.semantic_token_colors {
                Some(stc) => {
                    let ghost e3 = self.highlights@;
                    let mut j: usize = 0;
                    while j < stc.tokens.len()
                        invariant
                            j <= stc.tokens@.len(),
                            self.highlights@ == tokens_pass(e3, stc.tokens@, j as int),
                            self.theme == old(self).theme,
                            self.options == old(self).options,
                            self.vim_content == old(self).vim_content,
                            self.lua_content == old(self).lua_content,
                            self.theme.semantic_token_colors == Some(*stc),
                        decreases stc.tokens@.len() - j,
                    {
                        apply_token(&mut self.highlights, &stc.tokens[j]);
                        j = j + 1;
                    }
                },
                None => {},
            }
        }
    }

    /// Copies each group of the alias table, as it stands now, to its aliases.
    fn apply_treesitter_mappings(&mut self)
        ensures
            final(self).highlights@ == alias_pass(old(self).highlights@),
            final(self).theme == old(self).theme,
            final(self).options == old(self).options,
            final(self).vim_content == old(self).vim_content,
            final(self).lua_content == old(self).lua_content,
    {
        let ghost snap = self.highlights@;
        let mut pending: Vec<(&'static str, HighlightGroup)> = Vec::new();
        let mut i: usize = 0;
        while i < ALIAS_RULES
            invariant
                i <= ALIAS_RULES,
                self.highlights@ == snap,
                pending@.map_values(|w: (&'static str, HighlightGroup)| (w.0@, w.1@))
                    == alias_writes(snap, i as int),
            decreases ALIAS_RULES - i,
        {
            let (base, alias) = alias_rule_at(i);
            match self.highlights.get(base) {
                Some(g) => {
                    pending.push((alias, g.duplicate()));
                },
                None => {},
            }
            proof {
                assert(pending@.map_values(|w: (&'static str, HighlightGroup)| (w.0@, w.1@))
                    =~= alias_writes(snap, i + 1));
            }
            i = i + 1;
        }
        let ghost ws = alias_writes(snap, ALIAS_RULES as int);
        let mut k: usize = 0;
        while k < pending.len()
            invariant
                k <= pending@.len(),
                ws.len() == pending@.len(),
                forall|t: int| 0 <= t < ws.len() ==> #[trigger] ws[t] == (pending@[t].0@, pending@[t].1@),
                ws == alias_writes(snap, ALIAS_RULES as int),
                self.highlights@ == apply_writes(snap, ws, k as int),
                self.theme == old(self).theme,
                self.options == old(self).options,
                self.vim_content == old(self).vim_content,
                self.lua_content == old(self).lua_content,
            decreases pending@.len() - k,
        {
            assert(ws[k as int] == (pending@[k as int].0@, pending@[k as int].1@));
            let g = pending[k].1.duplicate();
            self.add_highlight(pending[k].0, g);
            k = k + 1;
        }
    }

    /// Resolves the groups, then renders each script that the options ask for.
    pub fn convert(&mut self)
        ensures
            converted(*old(self), *final(self)),
            names_unique(final(self).highlights@),
    {
        proof {
            lemma_resolve_names_unique(self.theme, self.options);
        }
        self.resolve_highlights();
        self.generate_content();
    }

    /// The resolved groups.
    pub fn get_highlights(self) -> (r: Highlights)
        ensures
            r@ == self.highlights@,
    {
        self.highlights
    }

    /// The name that output files take.
    pub fn get_theme_name(&self) -> (r: String)
        ensures
            r@ == theme_name(self.theme, self.options),
    {
        match &self.options.custom_name {
            Some(name) => name.clone(),
            None => self.theme.name.clone(),
        }
    }

    /// Renders each script that the options ask for from the groups as they stand,
    /// and clears the one not asked for.
    fn generate_content(&mut self)
        ensures
            final(self).theme == old(self).theme,
            final(self).options == old(self).options,
            final(self).highlights == old(self).highlights,
            if wants_vim(old(self).options.output_format) {
                opt_text(final(self).vim_content) == Some(
                    vim_text(old(self).theme, old(self).highlights@),
                )
            } else {
                final(self).vim_content is None
            },
            if wants_lua(old(self).options.output_format) {
                opt_text(final(self).lua_content) == Some(
                    lua_text(old(self).theme, old(self).highlights@),
                )
            } else {
                final(self).lua_content is None
            },
    {
        let format = self.options.output_format;
        if format == OutputFormat::Vim || format == OutputFormat::Both {
            let text = VimGenerator::new(&self.theme, &self.highlights).generate();
            self.vim_content = Some(text);
        } else {
            self.vim_content = None;
        }
        if format == OutputFormat::Lua || format == OutputFormat::Both {
            let text = LuaGenerator::new(&self.theme, &self.highlights).generate();
            self.lua_content = Some(text);
        } else {
            self.lua_content = None;
        }
    }

    /// Resolves every group afresh from the theme and the options.
    pub fn resolve_highlights(&mut self)
        ensures
            final(self).highlights@ == resolve(old(self).theme, old(self).options),
            final(self).theme == old(self).theme,
            final(self).options == old(self).options,
            final(self).vim_content == old(self).vim_content,
            final(self).lua_content == old(self).lua_content,
    {
        self.highlights = Highlights::new();
        self.apply_basic_mappings();
        self.apply_editor_mappings();
        self.apply_syntax_mappings();
        if self.options.include_treesitter {
            self.apply_treesitter_mappings();
        }
    }
}

} // verus!
