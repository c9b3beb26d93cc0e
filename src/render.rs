use vstd::prelude::*;

use crate::color::{composite_spec, normalize_color};
use crate::text::texts;
use crate::types::opt_text;

verus! {

/// What `str::to_lowercase` makes of a string.
pub uninterp spec fn lower_of(s: Seq<char>) -> Seq<char>;

/// Relies on `str::to_lowercase`: the lower-case form, which depends on the
/// characters alone; an empty string stays empty.
#[verifier::external_body]
fn lowercase(s: &str) -> (r: String)
    ensures
        r@ == lower_of(s@),
        s@.len() == 0 ==> r@.len() == 0,
{
    s.to_lowercase()
}

/// The characters that a name slug replaces by `_`.
pub open spec fn is_separator(c: char) -> bool {
    c == ' ' || c == '-' || c == '.' || c == ':' || c == '/' || c == '\\'
}

/// A lower-cased name with each separator replaced by `_`.
pub open spec fn slug(s: Seq<char>) -> Seq<char> {
    s.map_values(|c: char| if is_separator(c) { '_' } else { c })
}

/// Replaces each space, `-`, `.`, `:`, `/` and `\` by `_`.
pub fn replace_separators(lowered: &str) -> (r: String)
    ensures
        r@ == slug(lowered@),
{
    let n = lowered.unicode_len();
    let mut out = String::new();
    let mut i: usize = 0;
    while i < n
        invariant
            n == lowered@.len(),
            i <= n,
            out@ == slug(lowered@.subrange(0, i as int)),
        decreases n - i,
    {
        let c = lowered.get_char(i);
        if c == ' ' || c == '-' || c == '.' || c == ':' || c == '/' || c == '\\' {
            out.append("_");
            proof {
                reveal_strlit("_");
            }
            assert("_"@ =~= seq!['_']);
        } else {
            let one = lowered.substring_char(i, i + 1);
            assert(one@ =~= seq![c]);
            out.append(one);
        }
        assert(lowered@.subrange(0, i + 1) =~= lowered@.subrange(0, i as int).push(c));
        assert(slug(lowered@.subrange(0, i + 1)) =~= slug(lowered@.subrange(0, i as int)).push(
            if is_separator(c) { '_' } else { c },
        ));
        assert(out@ =~= slug(lowered@.subrange(0, i + 1)));
        i = i + 1;
    }
    assert(lowered@.subrange(0, n as int) =~= lowered@);
    out
}

/// The identifier-safe form of a theme name: lower case, separators as `_`.
pub fn sanitize_name(name: &str) -> (r: String)
    ensures
        r@ == slug(lower_of(name@)),
{
    let lowered = lowercase(name);
    replace_separators(lowered.as_str())
}

/// A color as it is written out: checked, and without alpha.
pub open spec fn color_part(o: Option<Seq<char>>) -> Option<Seq<char>> {
    match o {
        Some(c) => match composite_spec(c, c) {
            Ok(h) => Some(h),
            Err(_) => None,
        },
        None => None,
    }
}

/// The written form of an optional color.
pub fn render_color(o: &Option<String>) -> (r: Option<String>)
    ensures
        opt_text(r) == color_part(opt_text(*o)),
{
    match o {
        Some(c) => match normalize_color(c.as_str(), c.as_str()) {
            Ok(h) => Some(h),
            Err(_) => None,
        },
        None => None,
    }
}

/// `word`, where the flag is on.
pub open spec fn flag(on: Option<bool>, word: Seq<char>) -> Seq<Seq<char>> {
    if on == Some(true) {
        seq![word]
    } else {
        Seq::empty()
    }
}

/// Appends `word` to `parts` where the flag is on.
pub fn push_flag(parts: &mut Vec<String>, on: Option<bool>, word: &str)
    ensures
        texts(final(parts)@) == texts(old(parts)@) + flag(on, word@),
{
    if on == Some(true) {
        parts.push(String::from_str(word));
    }
    assert(texts(final(parts)@) =~= texts(old(parts)@) + flag(on, word@));
}

} // verus!
