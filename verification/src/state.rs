//! What the first pass learns of a document and the second pass reads.

use vstd::prelude::*;
use crate::search::{find_char, find_char_in, has_char, matches_at, occurs_at};
use crate::text::{chars_of, extend, lemma_concat_assoc, same_text, string_of};

verus! {

/// Options of a conversion.
pub struct ConvertOptions {
    /// Kept for marking option lists with the line they began at.
    pub add_data_lines: bool,
}

impl Default for ConvertOptions {
    fn default() -> (r: ConvertOptions)
        ensures
            !r.add_data_lines,
    {
        ConvertOptions { add_data_lines: false }
    }
}

/// What is known of a document besides its lines.
pub struct ConverterState {
    /// The level and the text of each section title, in order.
    pub section_titles: Vec<(u8, String)>,
    /// The adornment values in the order in which they first occurred: the
    /// value at index `k` marks the titles of level `k + 1`.
    pub section_chars: Vec<char>,
    /// The names of the substitutions, each with the HTML that stands for
    /// it, in the order in which the names were first defined.
    pub substitutions: Vec<(String, String)>,
    /// The names and addresses of the hyperlink targets, in order.
    pub target_references: Vec<(String, String)>,
    pub header_content: Option<String>,
    pub footer_content: Option<String>,
    /// Whether section titles are numbered.
    pub sectnum: bool,
    /// The deepest level whose titles are numbered.
    pub sectnum_depth: usize,
    pub sectnum_prefix: String,
    pub sectnum_suffix: String,
}

/// The state over mathematical texts.
pub struct Meta {
    pub section_titles: Seq<(int, Seq<char>)>,
    pub section_chars: Seq<char>,
    pub substitutions: Seq<(Seq<char>, Seq<char>)>,
    pub target_references: Seq<(Seq<char>, Seq<char>)>,
    pub header_content: Option<Seq<char>>,
    pub footer_content: Option<Seq<char>>,
    pub sectnum: bool,
    pub sectnum_depth: int,
    pub sectnum_prefix: Seq<char>,
    pub sectnum_suffix: Seq<char>,
}

/// The titles that a vector of titles holds.
pub open spec fn titles_view(v: Seq<(u8, String)>) -> Seq<(int, Seq<char>)> {
    Seq::new(v.len(), |i: int| (v[i].0 as int, v[i].1@))
}

/// The pairs of texts that a vector of pairs of strings holds.
pub open spec fn pairs_view(v: Seq<(String, String)>) -> Seq<(Seq<char>, Seq<char>)> {
    Seq::new(v.len(), |i: int| (v[i].0@, v[i].1@))
}

/// The text that an optional string holds.
pub open spec fn string_view(o: Option<String>) -> Option<Seq<char>> {
    match o {
        Some(s) => Some(s@),
        None => None,
    }
}

/// The state of a document of which nothing is known yet.
pub open spec fn empty_meta() -> Meta {
    Meta {
        section_titles: Seq::empty(),
        section_chars: Seq::empty(),
        substitutions: Seq::empty(),
        target_references: Seq::empty(),
        header_content: None,
        footer_content: None,
        sectnum: false,
        sectnum_depth: 6,
        sectnum_prefix: Seq::empty(),
        sectnum_suffix: Seq::empty(),
    }
}

impl View for ConverterState {
    type V = Meta;

    open spec fn view(&self) -> Meta {
        Meta {
            section_titles: titles_view(self.section_titles@),
            section_chars: self.section_chars@,
            substitutions: pairs_view(self.substitutions@),
            target_references: pairs_view(self.target_references@),
            header_content: string_view(self.header_content),
            footer_content: string_view(self.footer_content),
            sectnum: self.sectnum,
            sectnum_depth: self.sectnum_depth as int,
            sectnum_prefix: self.sectnum_prefix@,
            sectnum_suffix: self.sectnum_suffix@,
        }
    }
}

impl ConverterState {
    /// The state of a document of which nothing is known yet: no
    /// numbering, and a numbering depth of six.
    pub fn new() -> (r: ConverterState)
        ensures
            r@ == empty_meta(),
    {
        let r = ConverterState {
            section_titles: Vec::new(),
            section_chars: Vec::new(),
            substitutions: Vec::new(),
            target_references: Vec::new(),
            header_content: None,
            footer_content: None,
            sectnum: false,
            sectnum_depth: 6,
            sectnum_prefix: String::new(),
            sectnum_suffix: String::new(),
        };
        assert(titles_view(r.section_titles@) =~= Seq::empty());
        assert(pairs_view(r.substitutions@) =~= Seq::empty());
        assert(pairs_view(r.target_references@) =~= Seq::empty());
        r
    }
}

/// The deepest level that a title can have.
pub const MAX_LEVEL: usize = 255;

/// The level of the titles that `c` adorns, given the adornment values
/// seen so far: one more than the index of `c` among them, or one more
/// than their number if `c` is new. Levels stop at `MAX_LEVEL`.
pub open spec fn level_of(chars: Seq<char>, c: char) -> int {
    let fresh = match find_char(chars, c) {
        Some(p) => p + 1,
        None => chars.len() as int + 1,
    };
    if fresh <= MAX_LEVEL {
        fresh
    } else {
        MAX_LEVEL as int
    }
}

/// The adornment values seen once `c` has been seen.
pub open spec fn assigned(chars: Seq<char>, c: char) -> Seq<char> {
    if has_char(chars, c) {
        chars
    } else {
        chars.push(c)
    }
}

/// The level of the titles that `ch` adorns; `ch` is added to the values
/// seen if it is new.
pub fn get_or_assign_level(ch: char, chars: &mut Vec<char>) -> (level: u8)
    ensures
        level == level_of(old(chars)@, ch),
        final(chars)@ == assigned(old(chars)@, ch),
        1 <= level,
{
    let pos = match find_char_in(chars, ch, 0) {
        Some(p) => p,
        None => {
            chars.push(ch);
            chars.len() - 1
        },
    };
    if pos + 1 <= MAX_LEVEL {
        (pos + 1) as u8
    } else {
        MAX_LEVEL as u8
    }
}

/// `s` from index `i` on with every occurrence of `p`, taken from left to
/// right, replaced by `r`. An empty `p` occurs nowhere.
pub open spec fn replaced_from(s: Seq<char>, p: Seq<char>, r: Seq<char>, i: int) -> Seq<char>
    decreases s.len() - i,
{
    if i < 0 || i >= s.len() {
        Seq::empty()
    } else if p.len() > 0 && occurs_at(s, p, i) {
        r + replaced_from(s, p, r, i + p.len())
    } else {
        seq![s[i]] + replaced_from(s, p, r, i + 1)
    }
}

/// `s` with every occurrence of `p` replaced by `r`.
pub open spec fn replaced(s: Seq<char>, p: Seq<char>, r: Seq<char>) -> Seq<char> {
    replaced_from(s, p, r, 0)
}

/// Replaces every occurrence of `p` in `s` by `r`.
pub fn replace_all(s: &Vec<char>, p: &Vec<char>, r: &Vec<char>) -> (out: Vec<char>)
    ensures
        out@ == replaced(s@, p@, r@),
{
    let mut out: Vec<char> = Vec::new();
    let mut i: usize = 0;
    while i < s.len()
        invariant
            i <= s.len(),
            out@ + replaced_from(s@, p@, r@, i as int) == replaced(s@, p@, r@),
        decreases s.len() - i,
    {
        let ghost before = out@;
        if p.len() > 0 && matches_at(s, p, i) {
            extend(&mut out, r);
            proof {
                lemma_concat_assoc(before, r@, replaced_from(s@, p@, r@, i + p.len()));
            }
            i += p.len();
        } else {
            out.push(s[i]);
            proof {
                assert(out@ == before + seq![s@[i as int]]);
                lemma_concat_assoc(
                    before,
                    seq![s@[i as int]],
                    replaced_from(s@, p@, r@, i + 1),
                );
            }
            i += 1;
        }
    }
    assert(out@ + Seq::<char>::empty() =~= out@);
    out
}

/// The index of the first of the first `n` pairs whose name is `name`.
pub open spec fn pair_index(list: Seq<(Seq<char>, Seq<char>)>, name: Seq<char>, i: int) -> Option<
    int,
>
    decreases list.len() - i,
{
    if i < 0 || i >= list.len() {
        None
    } else if list[i].0 == name {
        Some(i)
    } else {
        pair_index(list, name, i + 1)
    }
}

/// The substitutions once `name` stands for `html`: a name that was
/// defined before keeps its place and takes the new HTML.
pub open spec fn with_substitution(
    list: Seq<(Seq<char>, Seq<char>)>,
    name: Seq<char>,
    html: Seq<char>,
) -> Seq<(Seq<char>, Seq<char>)> {
    match pair_index(list, name, 0) {
        Some(k) => list.update(k, (name, html)),
        None => list.push((name, html)),
    }
}

/// Lets `name` stand for `html`.
pub fn set_substitution(list: &mut Vec<(String, String)>, name: &Vec<char>, html: &Vec<char>)
    ensures
        pairs_view(final(list)@) == with_substitution(pairs_view(old(list)@), name@, html@),
{
    let ghost lv = pairs_view(list@);
    let mut i: usize = 0;
    while i < list.len()
        invariant
            i <= list.len(),
            list@ == old(list)@,
            lv == pairs_view(list@),
            pair_index(lv, name@, i as int) == pair_index(lv, name@, 0),
        decreases list.len() - i,
    {
        assert(lv[i as int].0 == list@[i as int].0@);
        let key = chars_of(list[i].0.as_str());
        if same_text(&key, name) {
            list.set(i, (string_of(name), string_of(html)));
            assert(pairs_view(list@) =~= lv.update(i as int, (name@, html@)));
            return;
        }
        i += 1;
    }
    list.push((string_of(name), string_of(html)));
    assert(pairs_view(list@) =~= lv.push((name@, html@)));
}

/// The reference that stands for the substitution `name` in running text.
pub open spec fn reference(name: Seq<char>) -> Seq<char> {
    "|"@ + name + "|"@
}

/// `html` with the references to the first `n` substitutions resolved, one
/// substitution after the other.
pub open spec fn resolved_upto(html: Seq<char>, list: Seq<(Seq<char>, Seq<char>)>, n: int) -> Seq<
    char,
>
    decreases n,
{
    if n <= 0 {
        html
    } else {
        replaced(resolved_upto(html, list, n - 1), reference(list[n - 1].0), list[n - 1].1)
    }
}

/// `html` with every reference to a substitution replaced by the HTML that
/// stands for it.
pub open spec fn resolved(html: Seq<char>, list: Seq<(Seq<char>, Seq<char>)>) -> Seq<char> {
    resolved_upto(html, list, list.len() as int)
}

/// Replaces every reference to a substitution by the HTML that stands for it.
pub fn resolve_substitutions(html: Vec<char>, state: &ConverterState) -> (r: Vec<char>)
    ensures
        r@ == resolved(html@, state@.substitutions),
{
    let ghost start = html@;
    let ghost lv = pairs_view(state.substitutions@);
    let mut out = html;
    let mut k: usize = 0;
    while k < state.substitutions.len()
        invariant
            k <= state.substitutions.len(),
            lv == pairs_view(state.substitutions@),
            out@ == resolved_upto(start, lv, k as int),
        decreases state.substitutions.len() - k,
    {
        assert(lv[k as int] == (
            state.substitutions@[k as int].0@,
            state.substitutions@[k as int].1@,
        ));
        let mut pattern = chars_of("|");
        let name = chars_of(state.substitutions[k].0.as_str());
        extend(&mut pattern, &name);
        crate::text::push_str(&mut pattern, "|");
        let replacement = chars_of(state.substitutions[k].1.as_str());
        out = replace_all(&out, &pattern, &replacement);
        k += 1;
    }
    out
}

} // verus!
