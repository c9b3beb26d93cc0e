use vstd::prelude::*;

use crate::text::{chars_of, contains_chars, contains_seq, same_text};

verus! {

/// The attribute of a group that an editor color sets.
#[derive(Debug, Clone, Copy, PartialEq, Eq, Structural)]
pub enum Attr {
    Fg,
    Bg,
    Sp,
}

/// Number of entries of the editor-color table.
pub const EDITOR_RULES: usize = 39;

/// Number of entries of the scope table.
pub const SCOPE_RULES: usize = 45;

/// Number of entries of the semantic-token table.
pub const SEMANTIC_RULES: usize = 22;

/// Number of entries of the alias table.
pub const ALIAS_RULES: usize = 32;

/// Entry `i` of the editor-color table: source key, group, attribute.
pub open spec fn editor_rule(i: int) -> (Seq<char>, Seq<char>, Attr) {
    if i == 0 {
        ("editor.background"@, "Normal"@, Attr::Bg)
    } else if i == 1 {
        ("editor.foreground"@, "Normal"@, Attr::Fg)
    } else if i == 2 {
        ("editor.lineHighlightBackground"@, "CursorLine"@, Attr::Bg)
    } else if i == 3 {
        ("editorCursor.foreground"@, "Cursor"@, Attr::Fg)
    } else if i == 4 {
        ("editorCursor.background"@, "Cursor"@, Attr::Bg)
    } else if i == 5 {
        ("editorWhitespace.foreground"@, "Whitespace"@, Attr::Fg)
    } else if i == 6 {
        ("editorWhitespace.background"@, "Whitespace"@, Attr::Bg)
    } else if i == 7 {
        ("editor.findMatchBackground"@, "CurSearch"@, Attr::Bg)
    } else if i == 8 {
        ("editor.findMatchHighlightForeground"@, "CurSearch"@, Attr::Fg)
    } else if i == 9 {
        ("editor.findMatchBackground"@, "IncSearch"@, Attr::Bg)
    } else if i == 10 {
        ("editor.findMatchHighlightForeground"@, "IncSearch"@, Attr::Fg)
    } else if i == 11 {
        ("editor.findMatchHighlightBackground"@, "Search"@, Attr::Bg)
    } else if i == 12 {
        ("editor.findMatchForeground"@, "Search"@, Attr::Fg)
    } else if i == 13 {
        ("editor.selectionBackground"@, "Visual"@, Attr::Bg)
    } else if i == 14 {
        ("editor.selectionForeground"@, "Visual"@, Attr::Fg)
    } else if i == 15 {
        ("editorLineNumber.foreground"@, "LineNr"@, Attr::Fg)
    } else if i == 16 {
        ("editorLineNumber.activeForeground"@, "CursorLineNr"@, Attr::Fg)
    } else if i == 17 {
        ("editorGutter.background"@, "SignColumn"@, Attr::Bg)
    } else if i == 18 {
        ("editorBracketMatch.background"@, "MatchParen"@, Attr::Bg)
    } else if i == 19 {
        ("editorBracketMatch.border"@, "MatchParen"@, Attr::Fg)
    } else if i == 20 {
        ("tab.activeBackground"@, "TabLineSel"@, Attr::Bg)
    } else if i == 21 {
        ("tab.activeForeground"@, "TabLineSel"@, Attr::Fg)
    } else if i == 22 {
        ("tab.inactiveBackground"@, "TabLine"@, Attr::Bg)
    } else if i == 23 {
        ("tab.inactiveForeground"@, "TabLine"@, Attr::Fg)
    } else if i == 24 {
        ("tab.border"@, "TabLineFill"@, Attr::Bg)
    } else if i == 25 {
        ("statusBar.background"@, "StatusLine"@, Attr::Bg)
    } else if i == 26 {
        ("statusBar.foreground"@, "StatusLine"@, Attr::Fg)
    } else if i == 27 {
        ("statusBar.noFolderBackground"@, "StatusLineNC"@, Attr::Bg)
    } else if i == 28 {
        ("statusBar.noFolderForeground"@, "StatusLineNC"@, Attr::Fg)
    } else if i == 29 {
        ("activityBar.background"@, "NormalSB"@, Attr::Bg)
    } else if i == 30 {
        ("activityBar.foreground"@, "NormalSB"@, Attr::Fg)
    } else if i == 31 {
        ("sideBar.background"@, "NormalSB"@, Attr::Bg)
    } else if i == 32 {
        ("sideBar.foreground"@, "NormalSB"@, Attr::Fg)
    } else if i == 33 {
        ("editorWidget.background"@, "Pmenu"@, Attr::Bg)
    } else if i == 34 {
        ("editorWidget.foreground"@, "Pmenu"@, Attr::Fg)
    } else if i == 35 {
        ("editorSuggestWidget.selectedBackground"@, "PmenuSel"@, Attr::Bg)
    } else if i == 36 {
        ("editorError.foreground"@, "Error"@, Attr::Fg)
    } else if i == 37 {
        ("editorWarning.foreground"@, "WarningMsg"@, Attr::Fg)
    } else if i == 38 {
        ("editorInfo.foreground"@, "MoreMsg"@, Attr::Fg)
    } else {
        (Seq::empty(), Seq::empty(), Attr::Fg)
    }
}

/// Entry `i` of the editor-color table.
pub fn editor_rule_at(i: usize) -> (r: (&'static str, &'static str, Attr))
    requires
        i < EDITOR_RULES,
    ensures
        r.0@ == editor_rule(i as int).0,
        r.1@ == editor_rule(i as int).1,
        r.2 == editor_rule(i as int).2,
{
    match i {
        0 => ("editor.background", "Normal", Attr::Bg),
        1 => ("editor.foreground", "Normal", Attr::Fg),
        2 => ("editor.lineHighlightBackground", "CursorLine", Attr::Bg),
        3 => ("editorCursor.foreground", "Cursor", Attr::Fg),
        4 => ("editorCursor.background", "Cursor", Attr::Bg),
        5 => ("editorWhitespace.foreground", "Whitespace", Attr::Fg),
        6 => ("editorWhitespace.background", "Whitespace", Attr::Bg),
        7 => ("editor.findMatchBackground", "CurSearch", Attr::Bg),
        8 => ("editor.findMatchHighlightForeground", "CurSearch", Attr::Fg),
        9 => ("editor.findMatchBackground", "IncSearch", Attr::Bg),
        10 => ("editor.findMatchHighlightForeground", "IncSearch", Attr::Fg),
        11 => ("editor.findMatchHighlightBackground", "Search", Attr::Bg),
        12 => ("editor.findMatchForeground", "Search", Attr::Fg),
        13 => ("editor.selectionBackground", "Visual", Attr::Bg),
        14 => ("editor.selectionForeground", "Visual", Attr::Fg),
        15 => ("editorLineNumber.foreground", "LineNr", Attr::Fg),
        16 => ("editorLineNumber.activeForeground", "CursorLineNr", Attr::Fg),
        17 => ("editorGutter.background", "SignColumn", Attr::Bg),
        18 => ("editorBracketMatch.background", "MatchParen", Attr::Bg),
        19 => ("editorBracketMatch.border", "MatchParen", Attr::Fg),
        20 => ("tab.activeBackground", "TabLineSel", Attr::Bg),
        21 => ("tab.activeForeground", "TabLineSel", Attr::Fg),
        22 => ("tab.inactiveBackground", "TabLine", Attr::Bg),
        23 => ("tab.inactiveForeground", "TabLine", Attr::Fg),
        24 => ("tab.border", "TabLineFill", Attr::Bg),
        25 => ("statusBar.background", "StatusLine", Attr::Bg),
        26 => ("statusBar.foreground", "StatusLine", Attr::Fg),
        27 => ("statusBar.noFolderBackground", "StatusLineNC", Attr::Bg),
        28 => ("statusBar.noFolderForeground", "StatusLineNC", Attr::Fg),
        29 => ("activityBar.background", "NormalSB", Attr::Bg),
        30 => ("activityBar.foreground", "NormalSB", Attr::Fg),
        31 => ("sideBar.background", "NormalSB", Attr::Bg),
        32 => ("sideBar.foreground", "NormalSB", Attr::Fg),
        33 => ("editorWidget.background", "Pmenu", Attr::Bg),
        34 => ("editorWidget.foreground", "Pmenu", Attr::Fg),
        35 => ("editorSuggestWidget.selectedBackground", "PmenuSel", Attr::Bg),
        36 => ("editorError.foreground", "Error", Attr::Fg),
        37 => ("editorWarning.foreground", "WarningMsg", Attr::Fg),
        _ => ("editorInfo.foreground", "MoreMsg", Attr::Fg),
    }
}

/// Entry `i` of the scope table: a key looked for inside a scope, and its group.
pub open spec fn scope_rule(i: int) -> (Seq<char>, Seq<char>) {
    if i == 0 {
        ("comment"@, "Comment"@)
    } else if i == 1 {
        ("comment.line"@, "Comment"@)
    } else if i == 2 {
        ("comment.block"@, "Comment"@)
    } else if i == 3 {
        ("comment.documentation"@, "SpecialComment"@)
    } else if i == 4 {
        ("constant"@, "Constant"@)
    } else if i == 5 {
        ("constant.numeric"@, "Number"@)
    } else if i == 6 {
        ("constant.character"@, "Character"@)
    } else if i == 7 {
        ("constant.character.escape"@, "SpecialChar"@)
    } else if i == 8 {
        ("constant.language"@, "Constant"@)
    } else if i == 9 {
        ("constant.other"@, "Constant"@)
    } else if i == 10 {
        ("entity.name.function"@, "Function"@)
    } else if i == 11 {
        ("entity.name.method"@, "Function"@)
    } else if i == 12 {
        ("entity.name.class"@, "Type"@)
    } else if i == 13 {
        ("entity.name.struct"@, "Structure"@)
    } else if i == 14 {
        ("entity.name.enum"@, "Type"@)
    } else if i == 15 {
        ("entity.name.union"@, "Structure"@)
    } else if i == 16 {
        ("entity.name.tag"@, "Tag"@)
    } else if i == 17 {
        ("entity.other.attribute-name"@, "Identifier"@)
    } else if i == 18 {
        ("keyword"@, "Keyword"@)
    } else if i == 19 {
        ("keyword.control"@, "Statement"@)
    } else if i == 20 {
        ("keyword.operator"@, "Operator"@)
    } else if i == 21 {
        ("punctuation"@, "Delimiter"@)
    } else if i == 22 {
        ("punctuation.definition"@, "Delimiter"@)
    } else if i == 23 {
        ("punctuation.separator"@, "Delimiter"@)
    } else if i == 24 {
        ("punctuation.terminator"@, "Delimiter"@)
    } else if i == 25 {
        ("storage"@, "StorageClass"@)
    } else if i == 26 {
        ("storage.type"@, "Type"@)
    } else if i == 27 {
        ("storage.modifier"@, "StorageClass"@)
    } else if i == 28 {
        ("string"@, "String"@)
    } else if i == 29 {
        ("support.function"@, "Function"@)
    } else if i == 30 {
        ("support.class"@, "Type"@)
    } else if i == 31 {
        ("support.type"@, "Type"@)
    } else if i == 32 {
        ("support.constant"@, "Constant"@)
    } else if i == 33 {
        ("support.variable"@, "Identifier"@)
    } else if i == 34 {
        ("variable"@, "Identifier"@)
    } else if i == 35 {
        ("variable.parameter"@, "Identifier"@)
    } else if i == 36 {
        ("variable.language"@, "Identifier"@)
    } else if i == 37 {
        ("variable.other"@, "Identifier"@)
    } else if i == 38 {
        ("markup.heading"@, "Title"@)
    } else if i == 39 {
        ("markup.bold"@, "Bold"@)
    } else if i == 40 {
        ("markup.italic"@, "Italic"@)
    } else if i == 41 {
        ("markup.underline"@, "Underlined"@)
    } else if i == 42 {
        ("markup.quote"@, "Comment"@)
    } else if i == 43 {
        ("markup.raw"@, "String"@)
    } else if i == 44 {
        ("markup.list"@, "Special"@)
    } else {
        (Seq::empty(), Seq::empty())
    }
}

/// Entry `i` of the scope table.
pub fn scope_rule_at(i: usize) -> (r: (&'static str, &'static str))
    requires
        i < SCOPE_RULES,
    ensures
        r.0@ == scope_rule(i as int).0,
        r.1@ == scope_rule(i as int).1,
{
    match i {
        0 => ("comment", "Comment"),
        1 => ("comment.line", "Comment"),
        2 => ("comment.block", "Comment"),
        3 => ("comment.documentation", "SpecialComment"),
        4 => ("constant", "Constant"),
        5 => ("constant.numeric", "Number"),
        6 => ("constant.character", "Character"),
        7 => ("constant.character.escape", "SpecialChar"),
        8 => ("constant.language", "Constant"),
        9 => ("constant.other", "Constant"),
        10 => ("entity.name.function", "Function"),
        11 => ("entity.name.method", "Function"),
        12 => ("entity.name.class", "Type"),
        13 => ("entity.name.struct", "Structure"),
        14 => ("entity.name.enum", "Type"),
        15 => ("entity.name.union", "Structure"),
        16 => ("entity.name.tag", "Tag"),
        17 => ("entity.other.attribute-name", "Identifier"),
        18 => ("keyword", "Keyword"),
        19 => ("keyword.control", "Statement"),
        20 => ("keyword.operator", "Operator"),
        21 => ("punctuation", "Delimiter"),
        22 => ("punctuation.definition", "Delimiter"),
        23 => ("punctuation.separator", "Delimiter"),
        24 => ("punctuation.terminator", "Delimiter"),
        25 => ("storage", "StorageClass"),
        26 => ("storage.type", "Type"),
        27 => ("storage.modifier", "StorageClass"),
        28 => ("string", "String"),
        29 => ("support.function", "Function"),
        30 => ("support.class", "Type"),
        31 => ("support.type", "Type"),
        32 => ("support.constant", "Constant"),
        33 => ("support.variable", "Identifier"),
        34 => ("variable", "Identifier"),
        35 => ("variable.parameter", "Identifier"),
        36 => ("variable.language", "Identifier"),
        37 => ("variable.other", "Identifier"),
        38 => ("markup.heading", "Title"),
        39 => ("markup.bold", "Bold"),
        40 => ("markup.italic", "Italic"),
        41 => ("markup.underline", "Underlined"),
        42 => ("markup.quote", "Comment"),
        43 => ("markup.raw", "String"),
        _ => ("markup.list", "Special"),
    }
}

/// Entry `i` of the semantic-token table: a token type and its group.
pub open spec fn semantic_rule(i: int) -> (Seq<char>, Seq<char>) {
    if i == 0 {
        ("namespace"@, "Identifier"@)
    } else if i == 1 {
        ("type"@, "Type"@)
    } else if i == 2 {
        ("class"@, "Type"@)
    } else if i == 3 {
        ("enum"@, "Type"@)
    } else if i == 4 {
        ("interface"@, "Type"@)
    } else if i == 5 {
        ("struct"@, "Structure"@)
    } else if i == 6 {
        ("typeParameter"@, "Identifier"@)
    } else if i == 7 {
        ("parameter"@, "Identifier"@)
    } else if i == 8 {
        ("variable"@, "Identifier"@)
    } else if i == 9 {
        ("property"@, "Identifier"@)
    } else if i == 10 {
        ("enumMember"@, "Constant"@)
    } else if i == 11 {
        ("event"@, "Identifier"@)
    } else if i == 12 {
        ("function"@, "Function"@)
    } else if i == 13 {
        ("method"@, "Function"@)
    } else if i == 14 {
        ("macro"@, "Macro"@)
    } else if i == 15 {
        ("keyword"@, "Keyword"@)
    } else if i == 16 {
        ("modifier"@, "StorageClass"@)
    } else if i == 17 {
        ("comment"@, "Comment"@)
    } else if i == 18 {
        ("string"@, "String"@)
    } else if i == 19 {
        ("number"@, "Number"@)
    } else if i == 20 {
        ("regexp"@, "String"@)
    } else if i == 21 {
        ("operator"@, "Operator"@)
    } else {
        (Seq::empty(), Seq::empty())
    }
}

/// Entry `i` of the semantic-token table.
pub fn semantic_rule_at(i: usize) -> (r: (&'static str, &'static str))
    requires
        i < SEMANTIC_RULES,
    ensures
        r.0@ == semantic_rule(i as int).0,
        r.1@ == semantic_rule(i as int).1,
{
    match i {
        0 => ("namespace", "Identifier"),
        1 => ("type", "Type"),
        2 => ("class", "Type"),
        3 => ("enum", "Type"),
        4 => ("interface", "Type"),
        5 => ("struct", "Structure"),
        6 => ("typeParameter", "Identifier"),
        7 => ("parameter", "Identifier"),
        8 => ("variable", "Identifier"),
        9 => ("property", "Identifier"),
        10 => ("enumMember", "Constant"),
        11 => ("event", "Identifier"),
        12 => ("function", "Function"),
        13 => ("method", "Function"),
        14 => ("macro", "Macro"),
        15 => ("keyword", "Keyword"),
        16 => ("modifier", "StorageClass"),
        17 => ("comment", "Comment"),
        18 => ("string", "String"),
        19 => ("number", "Number"),
        20 => ("regexp", "String"),
        _ => ("operator", "Operator"),
    }
}

/// Entry `i` of the alias table: a group and a group that mirrors it.
pub open spec fn alias_rule(i: int) -> (Seq<char>, Seq<char>) {
    if i == 0 {
        ("Comment"@, "@comment"@)
    } else if i == 1 {
        ("Constant"@, "@constant"@)
    } else if i == 2 {
        ("String"@, "@string"@)
    } else if i == 3 {
        ("Character"@, "@character"@)
    } else if i == 4 {
        ("Number"@, "@number"@)
    } else if i == 5 {
        ("Boolean"@, "@boolean"@)
    } else if i == 6 {
        ("Float"@, "@float"@)
    } else if i == 7 {
        ("Identifier"@, "@variable"@)
    } else if i == 8 {
        ("Function"@, "@function"@)
    } else if i == 9 {
        ("Function"@, "@method"@)
    } else if i == 10 {
        ("Statement"@, "@statement"@)
    } else if i == 11 {
        ("Conditional"@, "@conditional"@)
    } else if i == 12 {
        ("Repeat"@, "@repeat"@)
    } else if i == 13 {
        ("Label"@, "@label"@)
    } else if i == 14 {
        ("Operator"@, "@operator"@)
    } else if i == 15 {
        ("Keyword"@, "@keyword"@)
    } else if i == 16 {
        ("Exception"@, "@exception"@)
    } else if i == 17 {
        ("PreProc"@, "@preproc"@)
    } else if i == 18 {
        ("Include"@, "@include"@)
    } else if i == 19 {
        ("Define"@, "@define"@)
    } else if i == 20 {
        ("Macro"@, "@macro"@)
    } else if i == 21 {
        ("Type"@, "@type"@)
    } else if i == 22 {
        ("StorageClass"@, "@storageclass"@)
    } else if i == 23 {
        ("Structure"@, "@structure"@)
    } else if i == 24 {
        ("Typedef"@, "@typedef"@)
    } else if i == 25 {
        ("Special"@, "@special"@)
    } else if i == 26 {
        ("SpecialChar"@, "@character.special"@)
    } else if i == 27 {
        ("Tag"@, "@tag"@)
    } else if i == 28 {
        ("Delimiter"@, "@punctuation.delimiter"@)
    } else if i == 29 {
        ("SpecialComment"@, "@comment.special"@)
    } else if i == 30 {
        ("Todo"@, "@text.todo"@)
    } else if i == 31 {
        ("Error"@, "@error"@)
    } else {
        (Seq::empty(), Seq::empty())
    }
}

/// Entry `i` of the alias table.
pub fn alias_rule_at(i: usize) -> (r: (&'static str, &'static str))
    requires
        i < ALIAS_RULES,
    ensures
        r.0@ == alias_rule(i as int).0,
        r.1@ == alias_rule(i as int).1,
{
    match i {
        0 => ("Comment", "@comment"),
        1 => ("Constant", "@constant"),
        2 => ("String", "@string"),
        3 => ("Character", "@character"),
        4 => ("Number", "@number"),
        5 => ("Boolean", "@boolean"),
        6 => ("Float", "@float"),
        7 => ("Identifier", "@variable"),
        8 => ("Function", "@function"),
        9 => ("Function", "@method"),
        10 => ("Statement", "@statement"),
        11 => ("Conditional", "@conditional"),
        12 => ("Repeat", "@repeat"),
        13 => ("Label", "@label"),
        14 => ("Operator", "@operator"),
        15 => ("Keyword", "@keyword"),
        16 => ("Exception", "@exception"),
        17 => ("PreProc", "@preproc"),
        18 => ("Include", "@include"),
        19 => ("Define", "@define"),
        20 => ("Macro", "@macro"),
        21 => ("Type", "@type"),
        22 => ("StorageClass", "@storageclass"),
        23 => ("Structure", "@structure"),
        24 => ("Typedef", "@typedef"),
        25 => ("Special", "@special"),
        26 => ("SpecialChar", "@character.special"),
        27 => ("Tag", "@tag"),
        28 => ("Delimiter", "@punctuation.delimiter"),
        29 => ("SpecialComment", "@comment.special"),
        30 => ("Todo", "@text.todo"),
        _ => ("Error", "@error"),
    }
}

/// The alias-table entry whose alias has this length and last character; the
/// two tell every alias of the table apart.
pub open spec fn alias_key_index(len: nat, last: char) -> int {
    if len == 8 && last == 't' {
        0
    } else if len == 9 && last == 't' {
        1
    } else if len == 7 && last == 'g' {
        2
    } else if len == 10 && last == 'r' {
        3
    } else if len == 7 && last == 'r' {
        4
    } else if len == 8 && last == 'n' {
        5
    } else if len == 6 && last == 't' {
        6
    } else if len == 9 && last == 'e' {
        7
    } else if len == 9 && last == 'n' {
        8
    } else if len == 7 && last == 'd' {
        9
    } else if len == 10 && last == 't' {
        10
    } else if len == 12 && last == 'l' {
        11
    } else if len == 7 && last == 't' {
        12
    } else if len == 6 && last == 'l' {
        13
    } else if len == 9 && last == 'r' {
        14
    } else if len == 8 && last == 'd' {
        15
    } else if len == 10 && last == 'n' {
        16
    } else if len == 8 && last == 'c' {
        17
    } else if len == 8 && last == 'e' {
        18
    } else if len == 7 && last == 'e' {
        19
    } else if len == 6 && last == 'o' {
        20
    } else if len == 5 && last == 'e' {
        21
    } else if len == 13 && last == 's' {
        22
    } else if len == 10 && last == 'e' {
        23
    } else if len == 8 && last == 'f' {
        24
    } else if len == 8 && last == 'l' {
        25
    } else if len == 18 && last == 'l' {
        26
    } else if len == 4 && last == 'g' {
        27
    } else if len == 22 && last == 'r' {
        28
    } else if len == 16 && last == 'l' {
        29
    } else if len == 10 && last == 'o' {
        30
    } else if len == 6 && last == 'r' {
        31
    } else {
        -1
    }
}

/// No two entries of the alias table name the same alias.
pub proof fn lemma_alias_names_distinct()
    ensures
        forall|i: int, j: int|
            0 <= i < j < ALIAS_RULES ==> #[trigger] alias_rule(i).1 != #[trigger] alias_rule(j).1,
{
    reveal_strlit("@comment");
    reveal_strlit("@constant");
    reveal_strlit("@string");
    reveal_strlit("@character");
    reveal_strlit("@number");
    reveal_strlit("@boolean");
    reveal_strlit("@float");
    reveal_strlit("@variable");
    reveal_strlit("@function");
    reveal_strlit("@method");
    reveal_strlit("@statement");
    reveal_strlit("@conditional");
    reveal_strlit("@repeat");
    reveal_strlit("@label");
    reveal_strlit("@operator");
    reveal_strlit("@keyword");
    reveal_strlit("@exception");
    reveal_strlit("@preproc");
    reveal_strlit("@include");
    reveal_strlit("@define");
    reveal_strlit("@macro");
    reveal_strlit("@type");
    reveal_strlit("@storageclass");
    reveal_strlit("@structure");
    reveal_strlit("@typedef");
    reveal_strlit("@special");
    reveal_strlit("@character.special");
    reveal_strlit("@tag");
    reveal_strlit("@punctuation.delimiter");
    reveal_strlit("@comment.special");
    reveal_strlit("@text.todo");
    reveal_strlit("@error");
    assert forall|i: int| 0 <= i < ALIAS_RULES implies alias_key_index(
        #[trigger] alias_rule(i).1.len(),
        alias_rule(i).1.last(),
    ) == i by {
        if i == 0 {
        } else if i == 1 {
        } else if i == 2 {
        } else if i == 3 {
        } else if i == 4 {
        } else if i == 5 {
        } else if i == 6 {
        } else if i == 7 {
        } else if i == 8 {
        } else if i == 9 {
        } else if i == 10 {
        } else if i == 11 {
        } else if i == 12 {
        } else if i == 13 {
        } else if i == 14 {
        } else if i == 15 {
        } else if i == 16 {
        } else if i == 17 {
        } else if i == 18 {
        } else if i == 19 {
        } else if i == 20 {
        } else if i == 21 {
        } else if i == 22 {
        } else if i == 23 {
        } else if i == 24 {
        } else if i == 25 {
        } else if i == 26 {
        } else if i == 27 {
        } else if i == 28 {
        } else if i == 29 {
        } else if i == 30 {
        } else if i == 31 {
        }
    }
    assert forall|i: int, j: int| 0 <= i < j < ALIAS_RULES implies alias_rule(i).1 != alias_rule(
        j,
    ).1 by {
        assert(alias_key_index(alias_rule(i).1.len(), alias_rule(i).1.last()) == i);
        assert(alias_key_index(alias_rule(j).1.len(), alias_rule(j).1.last()) == j);
    }
}

/// The scope-table entry chosen for `scope` among the first `n`: of the keys that
/// occur in `scope`, the longest; of equally long ones, the earliest.
pub open spec fn scope_pick(scope: Seq<char>, n: int) -> Option<int>
    decreases n,
{
    if n <= 0 {
        None
    } else {
        let p = scope_pick(scope, n - 1);
        let k = scope_rule(n - 1).0;
        if contains_seq(scope, k) && (p is None || scope_rule(p->Some_0).0.len() < k.len()) {
            Some(n - 1)
        } else {
            p
        }
    }
}

/// The chosen entry's key occurs in the scope, and no key that occurs is longer;
/// an earlier entry with a key as long is not passed over.
pub proof fn lemma_scope_pick_longest(scope: Seq<char>, n: int)
    ensures
        scope_pick(scope, n) is Some ==> {
            let i = scope_pick(scope, n)->Some_0;
            &&& 0 <= i < n
            &&& contains_seq(scope, scope_rule(i).0)
            &&& forall|j: int|
                0 <= j < n && contains_seq(scope, #[trigger] scope_rule(j).0) ==> scope_rule(j).0.len()
                    <= scope_rule(i).0.len()
            &&& forall|j: int|
                0 <= j < i && contains_seq(scope, #[trigger] scope_rule(j).0) ==> scope_rule(j).0.len()
                    < scope_rule(i).0.len()
        },
        scope_pick(scope, n) is None ==> forall|j: int|
            0 <= j < n ==> !contains_seq(scope, #[trigger] scope_rule(j).0),
    decreases n,
{
    if n > 0 {
        lemma_scope_pick_longest(scope, n - 1);
    }
}

/// The groups that a scope maps to.
pub open spec fn scope_groups(scope: Seq<char>) -> Option<Seq<Seq<char>>> {
    match scope_pick(scope, SCOPE_RULES as int) {
        Some(i) => Some(seq![scope_rule(i).1]),
        None => None,
    }
}

/// The first semantic-token entry among the first `n` whose type is `token`.
pub open spec fn semantic_pick(token: Seq<char>, n: int) -> Option<int>
    decreases n,
{
    if n <= 0 {
        None
    } else {
        match semantic_pick(token, n - 1) {
            Some(i) => Some(i),
            None => if semantic_rule(n - 1).0 == token {
                Some(n - 1)
            } else {
                None
            },
        }
    }
}

/// The groups that a semantic token type maps to.
pub open spec fn semantic_groups(token: Seq<char>) -> Option<Seq<Seq<char>>> {
    match semantic_pick(token, SEMANTIC_RULES as int) {
        Some(i) => Some(seq![semantic_rule(i).1]),
        None => None,
    }
}

/// The text of each name of an optional list.
pub open spec fn opt_names(r: Option<Vec<&'static str>>) -> Option<Seq<Seq<char>>> {
    match r {
        Some(v) => Some(v@.map_values(|s: &'static str| s@)),
        None => None,
    }
}

fn single(g: &'static str) -> (r: Vec<&'static str>)
    ensures
        r@.map_values(|s: &'static str| s@) == seq![g@],
{
    let mut v: Vec<&'static str> = Vec::new();
    v.push(g);
    assert(v@.map_values(|s: &'static str| s@) =~= seq![g@]);
    v
}

/// The groups for a scope: those of the longest table key that occurs in it.
pub fn get_vim_groups_for_scope(scope: &str) -> (r: Option<Vec<&'static str>>)
    ensures
        opt_names(r) == scope_groups(scope@),
{
    let sc = chars_of(scope);
    let mut best: Option<usize> = None;
    let mut best_len: usize = 0;
    let mut i: usize = 0;
    while i < SCOPE_RULES
        invariant
            sc@ == scope@,
            i <= SCOPE_RULES,
            best is Some <==> scope_pick(scope@, i as int) is Some,
            best is Some ==> scope_pick(scope@, i as int) == Some(best->Some_0 as int),
            best is Some ==> best->Some_0 < i && best_len == scope_rule(best->Some_0 as int).0.len(),
        decreases SCOPE_RULES - i,
    {
        let (key, _) = scope_rule_at(i);
        let kc = chars_of(key);
        if contains_chars(&sc, &kc) && (best.is_none() || best_len < kc.len()) {
            best = Some(i);
            best_len = kc.len();
        }
        i = i + 1;
    }
    match best {
        Some(j) => Some(single(scope_rule_at(j).1)),
        None => None,
    }
}

/// The groups for a semantic token type, found by exact match.
pub fn get_vim_groups_for_semantic_token(token_type: &str) -> (r: Option<Vec<&'static str>>)
    ensures
        opt_names(r) == semantic_groups(token_type@),
{
    let mut i: usize = 0;
    while i < SEMANTIC_RULES
        invariant
            i <= SEMANTIC_RULES,
            semantic_pick(token_type@, i as int) is None,
        decreases SEMANTIC_RULES - i,
    {
        let (key, group) = semantic_rule_at(i);
        if same_text(key, token_type) {
            proof {
                lemma_semantic_pick_stays(token_type@, i as int + 1, SEMANTIC_RULES as int);
            }
            return Some(single(group));
        }
        i = i + 1;
    }
    None
}

proof fn lemma_semantic_pick_stays(token: Seq<char>, n: int, m: int)
    requires
        0 < n <= m,
        semantic_pick(token, n) is Some,
    ensures
        semantic_pick(token, m) == semantic_pick(token, n),
    decreases m - n,
{
    if m > n {
        lemma_semantic_pick_stays(token, n, m - 1);
    }
}

} // verus!
