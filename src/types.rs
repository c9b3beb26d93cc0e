use vstd::prelude::*;

use crate::color::{digit_text, hex_digit};
use crate::mapping::Attr;
use crate::text::{same_text, texts};

verus! {

/// Colors of one token-color rule.
pub struct TokenSettings {
    pub foreground: Option<String>,
    pub background: Option<String>,
    pub font_style: Option<String>,
}

/// The scope or scopes that a token-color rule names.
pub enum TokenScope {
    Single(String),
    Multiple(Vec<String>),
}

/// A token-color rule: the scopes it applies to and their colors.
pub struct TokenColor {
    pub name: Option<String>,
    pub scope: TokenScope,
    pub settings: TokenSettings,
}

/// The style of one semantic token type.
pub struct SemanticSetting {
    pub foreground: Option<String>,
    pub font_style: Option<String>,
}

/// Styles by semantic token type, in the order the theme gives them.
pub struct SemanticTokenColors {
    pub tokens: Vec<(String, SemanticSetting)>,
}

/// The decimal digits of `n`.
pub open spec fn decimal(n: nat) -> Seq<char>
    decreases n,
{
    if n < 10 {
        seq![hex_digit(n as int)]
    } else {
        decimal(n / 10).push(hex_digit((n % 10) as int))
    }
}

fn push_decimal(out: &mut String, n: usize)
    ensures
        final(out)@ == old(out)@ + decimal(n as nat),
    decreases n,
{
    if n >= 10 {
        push_decimal(out, n / 10);
    }
    out.append(digit_text((n % 10) as u8));
    assert(final(out)@ =~= old(out)@ + decimal(n as nat));
}

/// A one-line description of a theme: name, type, and how many colors and rules
/// it has.
pub open spec fn theme_summary(t: ThemeConfig) -> Seq<char> {
    "Theme「"@ + t.name@ + "」("@ + t.theme_type@ + ") - color count: "@ + decimal(
        t.colors@.len(),
    ) + ", token count: "@ + decimal(t.token_colors@.len())
}

impl ThemeConfig {
    /// A one-line description: name, type, and how many colors and rules it has.
    pub fn describe(&self) -> (r: String)
        ensures
            r@ == theme_summary(*self),
    {
        let mut out = String::new();
        out.append("Theme「");
        out.append(self.name.as_str());
        out.append("」(");
        out.append(self.theme_type.as_str());
        out.append(") - color count: ");
        push_decimal(&mut out, self.colors.len());
        out.append(", token count: ");
        push_decimal(&mut out, self.token_colors.len());
        assert(out@ =~= theme_summary(*self));
        out
    }
}

/// The distinct foreground colors of the first `n` styles, in the order they first
/// appear.
pub open spec fn unique_foregrounds(tokens: Seq<(String, SemanticSetting)>, n: int) -> Seq<Seq<char>>
    decreases n,
{
    if n <= 0 {
        Seq::empty()
    } else {
        let prev = unique_foregrounds(tokens, n - 1);
        match tokens[n - 1].1.foreground {
            Some(c) => if prev.contains(c@) {
                prev
            } else {
                prev.push(c@)
            },
            None => prev,
        }
    }
}

fn holds_text(v: &Vec<String>, s: &str) -> (r: bool)
    ensures
        r == texts(v@).contains(s@),
{
    let mut i: usize = 0;
    while i < v.len()
        invariant
            i <= v@.len(),
            forall|j: int| 0 <= j < i ==> v@[j]@ != s@,
        decreases v@.len() - i,
    {
        if same_text(v[i].as_str(), s) {
            assert(texts(v@)[i as int] == s@);
            return true;
        }
        i = i + 1;
    }
    false
}

impl SemanticTokenColors {
    /// The distinct foreground colors, in the order they first appear.
    pub fn get_unique_colors(&self) -> (r: Vec<String>)
        ensures
            texts(r@) == unique_foregrounds(self.tokens@, self.tokens@.len() as int),
    {
        let mut out: Vec<String> = Vec::new();
        let mut i: usize = 0;
        assert(texts(out@) =~= Seq::<Seq<char>>::empty());
        while i < self.tokens.len()
            invariant
                i <= self.tokens@.len(),
                texts(out@) == unique_foregrounds(self.tokens@, i as int),
            decreases self.tokens@.len() - i,
        {
            match &self.tokens[i].1.foreground {
                Some(c) => {
                    if !holds_text(&out, c.as_str()) {
                        out.push(c.clone());
                        assert(texts(out@) =~= unique_foregrounds(self.tokens@, i as int).push(
                            c@,
                        ));
                    }
                },
                None => {},
            }
            i = i + 1;
        }
        out
    }
}

/// A source theme. `colors` pairs each dotted key with a color string; where a key
/// is given twice, its first entry counts.
pub struct ThemeConfig {
    pub name: String,
    pub theme_type: String,
    pub colors: Vec<(String, String)>,
    pub semantic_highlighting: bool,
    pub semantic_token_colors: Option<SemanticTokenColors>,
    pub token_colors: Vec<TokenColor>,
}

/// The attributes of a highlight group. Where `link` is set the group stands for
/// that other group, and the rest is not rendered.
#[derive(Debug, Clone)]
pub struct HighlightGroup {
    pub fg: Option<String>,
    pub bg: Option<String>,
    pub sp: Option<String>,
    pub bold: Option<bool>,
    pub italic: Option<bool>,
    pub underline: Option<bool>,
    pub undercurl: Option<bool>,
    pub strikethrough: Option<bool>,
    pub link: Option<String>,
}

/// What a highlight group holds, with its strings as character sequences.
pub struct GroupView {
    pub fg: Option<Seq<char>>,
    pub bg: Option<Seq<char>>,
    pub sp: Option<Seq<char>>,
    pub bold: Option<bool>,
    pub italic: Option<bool>,
    pub underline: Option<bool>,
    pub undercurl: Option<bool>,
    pub strikethrough: Option<bool>,
    pub link: Option<Seq<char>>,
}

pub open spec fn opt_text(o: Option<String>) -> Option<Seq<char>> {
    match o {
        Some(s) => Some(s@),
        None => None,
    }
}

/// The group with no attribute set.
pub open spec fn blank_group() -> GroupView {
    GroupView {
        fg: None,
        bg: None,
        sp: None,
        bold: None,
        italic: None,
        underline: None,
        undercurl: None,
        strikethrough: None,
        link: None,
    }
}

/// `g` with one color attribute set to `v`.
pub open spec fn with_attr(g: GroupView, a: Attr, v: Seq<char>) -> GroupView {
    match a {
        Attr::Fg => GroupView { fg: Some(v), ..g },
        Attr::Bg => GroupView { bg: Some(v), ..g },
        Attr::Sp => GroupView { sp: Some(v), ..g },
    }
}

impl View for HighlightGroup {
    type V = GroupView;

    open spec fn view(&self) -> GroupView {
        GroupView {
            fg: opt_text(self.fg),
            bg: opt_text(self.bg),
            sp: opt_text(self.sp),
            bold: self.bold,
            italic: self.italic,
            underline: self.underline,
            undercurl: self.undercurl,
            strikethrough: self.strikethrough,
            link: opt_text(self.link),
        }
    }
}

impl Default for HighlightGroup {
    fn default() -> (r: Self)
        ensures
            r@ == blank_group(),
    {
        HighlightGroup {
            fg: None,
            bg: None,
            sp: None,
            bold: None,
            italic: None,
            underline: None,
            undercurl: None,
            strikethrough: None,
            link: None,
        }
    }
}

fn copy_text(o: &Option<String>) -> (r: Option<String>)
    ensures
        opt_text(r) == opt_text(*o),
{
    match o {
        Some(s) => Some(s.clone()),
        None => None,
    }
}

/// Makes a text value from a string slice.
pub fn text_of(s: &str) -> (r: String)
    ensures
        r@ == s@,
{
    String::from_str(s)
}

impl HighlightGroup {
    /// A copy with the same attributes.
    pub fn duplicate(&self) -> (r: Self)
        ensures
            r@ == self@,
    {
        HighlightGroup {
            fg: copy_text(&self.fg),
            bg: copy_text(&self.bg),
            sp: copy_text(&self.sp),
            bold: self.bold,
            italic: self.italic,
            underline: self.underline,
            undercurl: self.undercurl,
            strikethrough: self.strikethrough,
            link: copy_text(&self.link),
        }
    }

    /// Sets one color attribute.
    pub fn set_attr(&mut self, a: Attr, v: &str)
        ensures
            final(self)@ == with_attr(old(self)@, a, v@),
    {
        match a {
            Attr::Fg => self.fg = Some(text_of(v)),
            Attr::Bg => self.bg = Some(text_of(v)),
            Attr::Sp => self.sp = Some(text_of(v)),
        }
    }
}

/// Resolved groups in the order they were first set, each name once.
pub type Entries = Seq<(Seq<char>, GroupView)>;

/// Where `name` first stands in `es`.
pub open spec fn index_of(es: Entries, name: Seq<char>) -> Option<int>
    decreases es.len(),
{
    if es.len() == 0 {
        None
    } else {
        match index_of(es.drop_last(), name) {
            Some(i) => Some(i),
            None => if es.last().0 == name {
                Some(es.len() - 1)
            } else {
                None
            },
        }
    }
}

/// The group that `es` holds under `name`.
pub open spec fn lookup(es: Entries, name: Seq<char>) -> Option<GroupView> {
    match index_of(es, name) {
        Some(i) => Some(es[i].1),
        None => None,
    }
}

/// `es` with the group under `name` replaced by `g`, or `g` added at the end.
pub open spec fn put(es: Entries, name: Seq<char>, g: GroupView) -> Entries {
    match index_of(es, name) {
        Some(i) => es.update(i, (name, g)),
        None => es.push((name, g)),
    }
}

/// `es` with one color attribute of the group under `name` set, the group
/// created empty where it is missing.
pub open spec fn put_attr(es: Entries, name: Seq<char>, a: Attr, v: Seq<char>) -> Entries {
    let g = match lookup(es, name) {
        Some(g) => g,
        None => blank_group(),
    };
    put(es, name, with_attr(g, a, v))
}

/// No name stands twice.
pub open spec fn names_unique(es: Entries) -> bool {
    forall|i: int, j: int| 0 <= i < j < es.len() ==> es[i].0 != es[j].0
}

pub proof fn lemma_index_of(es: Entries, name: Seq<char>)
    ensures
        index_of(es, name) is None ==> forall|i: int| 0 <= i < es.len() ==> es[i].0 != name,
        index_of(es, name) is Some ==> {
            let i = index_of(es, name)->Some_0;
            &&& 0 <= i < es.len()
            &&& es[i].0 == name
            &&& forall|j: int| 0 <= j < i ==> es[j].0 != name
        },
    decreases es.len(),
{
    if es.len() > 0 {
        lemma_index_of(es.drop_last(), name);
        assert(forall|i: int| 0 <= i < es.len() - 1 ==> es.drop_last()[i] == es[i]);
    }
}

/// After a put, the name holds the new group and every other name what it held.
pub proof fn lemma_put_lookup(es: Entries, name: Seq<char>, g: GroupView, other: Seq<char>)
    ensures
        lookup(put(es, name, g), name) == Some(g),
        other != name ==> lookup(put(es, name, g), other) == lookup(es, other),
{
    lemma_index_of(es, name);
    lemma_index_of(es, other);
    let es2 = put(es, name, g);
    lemma_index_of(es2, name);
    lemma_index_of(es2, other);
    match index_of(es, name) {
        Some(i) => {
            assert(es2[i].0 == name);
            assert(forall|j: int| 0 <= j < es.len() ==> es2[j].0 == es[j].0);
            assert(forall|j: int| 0 <= j < es.len() && j != i ==> es2[j] == es[j]);
        },
        None => {
            assert(es2.drop_last() =~= es);
        },
    }
}

/// Putting a group keeps every name once.
pub proof fn lemma_put_unique(es: Entries, name: Seq<char>, g: GroupView)
    requires
        names_unique(es),
    ensures
        names_unique(put(es, name, g)),
{
    lemma_index_of(es, name);
}

/// Resolved highlight groups: an ordered list of names, each with its group.
pub struct Highlights {
    pub entries: Vec<(String, HighlightGroup)>,
}

impl View for Highlights {
    type V = Entries;

    open spec fn view(&self) -> Entries {
        self.entries@.map_values(|e: (String, HighlightGroup)| (e.0@, e.1@))
    }
}

impl Highlights {
    /// No group yet.
    pub fn new() -> (r: Self)
        ensures
            r@ == Seq::<(Seq<char>, GroupView)>::empty(),
    {
        let r = Highlights { entries: Vec::new() };
        assert(r@ =~= Seq::<(Seq<char>, GroupView)>::empty());
        r
    }

    /// Number of groups.
    pub fn len(&self) -> (r: usize)
        ensures
            r == self@.len(),
    {
        self.entries.len()
    }

    /// Where the group `name` stands.
    pub fn position(&self, name: &str) -> (r: Option<usize>)
        ensures
            r is Some <==> index_of(self@, name@) is Some,
            r is Some ==> index_of(self@, name@) == Some(r->Some_0 as int),
            r is Some ==> r->Some_0 < self@.len(),
    {
        let mut i: usize = 0;
        while i < self.entries.len()
            invariant
                i <= self@.len(),
                index_of(self@.subrange(0, i as int), name@) is None,
            decreases self@.len() - i,
        {
            proof {
                assert(self@.subrange(0, i + 1).drop_last() =~= self@.subrange(0, i as int));
            }
            if same_text(self.entries[i].0.as_str(), name) {
                proof {
                    lemma_index_prefix(self@, name@, i as int + 1);
                }
                return Some(i);
            }
            i = i + 1;
        }
        assert(self@.subrange(0, i as int) =~= self@);
        None
    }

    /// The group `name`, if there is one.
    pub fn get(&self, name: &str) -> (r: Option<&HighlightGroup>)
        ensures
            match r {
                Some(g) => lookup(self@, name@) == Some(g@),
                None => lookup(self@, name@) is None,
            },
    {
        match self.position(name) {
            Some(i) => Some(&self.entries[i].1),
            None => None,
        }
    }

    /// Whether there is a group `name`.
    pub fn contains_key(&self, name: &str) -> (r: bool)
        ensures
            r == (index_of(self@, name@) is Some),
    {
        self.position(name).is_some()
    }

    /// Sets the group `name` to `g`, replacing what it held.
    pub fn insert(&mut self, name: &str, g: HighlightGroup)
        ensures
            final(self)@ == put(old(self)@, name@, g@),
    {
        match self.position(name) {
            Some(i) => {
                self.entries.set(i, (text_of(name), g));
                assert(final(self)@ =~= put(old(self)@, name@, g@));
            },
            None => {
                self.entries.push((text_of(name), g));
                assert(final(self)@ =~= put(old(self)@, name@, g@));
            },
        }
    }

    /// Sets one color attribute of the group `name`, creating the group where it is
    /// missing.
    pub fn insert_attr(&mut self, name: &str, a: Attr, v: &str)
        ensures
            final(self)@ == put_attr(old(self)@, name@, a, v@),
    {
        let mut g = match self.get(name) {
            Some(g) => g.duplicate(),
            None => HighlightGroup::default(),
        };
        g.set_attr(a, v);
        self.insert(name, g);
    }
}

proof fn lemma_index_prefix(es: Entries, name: Seq<char>, n: int)
    requires
        0 < n <= es.len(),
        index_of(es.subrange(0, n - 1), name) is None,
        es[n - 1].0 == name,
    ensures
        index_of(es, name) == Some(n - 1),
    decreases es.len() - n,
{
    assert(es.subrange(0, n).drop_last() =~= es.subrange(0, n - 1));
    assert(index_of(es.subrange(0, n), name) == Some(n - 1));
    assert(es.subrange(0, es.len() as int) =~= es);
    if n < es.len() {
        lemma_index_prefix_grow(es, name, n, es.len() as int);
    }
}

proof fn lemma_index_prefix_grow(es: Entries, name: Seq<char>, n: int, m: int)
    requires
        0 < n <= m <= es.len(),
        index_of(es.subrange(0, n), name) is Some,
    ensures
        index_of(es.subrange(0, m), name) == index_of(es.subrange(0, n), name),
    decreases m - n,
{
    if m > n {
        lemma_index_prefix_grow(es, name, n, m - 1);
        assert(es.subrange(0, m).drop_last() =~= es.subrange(0, m - 1));
    }
}

/// The color that `colors` gives for `key`: its first entry.
pub open spec fn color_lookup(colors: Seq<(String, String)>, key: Seq<char>) -> Option<Seq<char>>
    decreases colors.len(),
{
    if colors.len() == 0 {
        None
    } else {
        match color_lookup(colors.drop_last(), key) {
            Some(c) => Some(c),
            None => if colors.last().0@ == key {
                Some(colors.last().1@)
            } else {
                None
            },
        }
    }
}

/// The color that `colors` gives for `key`.
pub fn find_color<'a>(colors: &'a Vec<(String, String)>, key: &str) -> (r: Option<&'a String>)
    ensures
        match r {
            Some(c) => color_lookup(colors@, key@) == Some(c@),
            None => color_lookup(colors@, key@) is None,
        },
{
    let mut i: usize = 0;
    while i < colors.len()
        invariant
            i <= colors@.len(),
            color_lookup(colors@.subrange(0, i as int), key@) is None,
        decreases colors@.len() - i,
    {
        assert(colors@.subrange(0, i + 1).drop_last() =~= colors@.subrange(0, i as int));
        if same_text(colors[i].0.as_str(), key) {
            proof {
                lemma_color_prefix(colors@, key@, i as int + 1);
            }
            return Some(&colors[i].1);
        }
        i = i + 1;
    }
    assert(colors@.subrange(0, i as int) =~= colors@);
    None
}

proof fn lemma_color_prefix(colors: Seq<(String, String)>, key: Seq<char>, n: int)
    requires
        0 < n <= colors.len(),
        color_lookup(colors.subrange(0, n), key) is Some,
    ensures
        color_lookup(colors, key) == color_lookup(colors.subrange(0, n), key),
    decreases colors.len() - n,
{
    if n < colors.len() {
        assert(colors.subrange(0, n + 1).drop_last() =~= colors.subrange(0, n));
        lemma_color_prefix(colors, key, n + 1);
    } else {
        assert(colors.subrange(0, n) =~= colors);
    }
}

} // verus!
