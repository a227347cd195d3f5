//! The line classifier: every line is of exactly one kind, decided by a
//! fixed order of tests.

use vstd::prelude::*;
use crate::lists::{bullet_start, is_bullet_start, is_valid_enumerator, valid_enumerator};
use crate::options::Options;
use crate::search::{
    begins_with_char, contains_char, ends_with_char, find, find_char, find_char_from, find_char_in,
    find_str, first_is, has_char, has_prefix, last_is, starts_with,
};
use crate::text::{
    blank, chars_of, copy_range, indent, indent_of, is_blank, is_str, skip, string_of, take, trim,
    trimmed,
};

verus! {

/// The kind of a line, with the parts that were read from it.
#[derive(Debug, Clone, PartialEq)]
pub enum LineType {
    Empty,
    SectionAdornment(char),
    BulletListItem,
    /// The enumerator.
    EnumeratedListItem(String),
    /// The name and the body.
    FieldListItem(String, String),
    /// The name and the arguments.
    DirectiveStart(String, String),
    /// The name and the value.
    DirectiveOption(String, String),
    Comment,
    /// The name, the directive and its arguments.
    SubstitutionDef(String, String, String),
    /// The name and the address.
    Target(String, String),
    Transition,
    LineBlockLine,
    LiteralBlockMarker,
    GridTableLine,
    SimpleTableBorder,
    DoctestBlock,
    /// The number of white-space values that the line begins with.
    IndentedLine(usize),
    TextLine,
}

/// The kind of a line over mathematical texts.
pub enum LineKind {
    Empty,
    SectionAdornment(char),
    BulletListItem,
    EnumeratedListItem(Seq<char>),
    FieldListItem(Seq<char>, Seq<char>),
    DirectiveStart(Seq<char>, Seq<char>),
    DirectiveOption(Seq<char>, Seq<char>),
    Comment,
    SubstitutionDef(Seq<char>, Seq<char>, Seq<char>),
    Target(Seq<char>, Seq<char>),
    Transition,
    LineBlockLine,
    LiteralBlockMarker,
    GridTableLine,
    SimpleTableBorder,
    DoctestBlock,
    IndentedLine(int),
    TextLine,
}

impl View for LineType {
    type V = LineKind;

    open spec fn view(&self) -> LineKind {
        match self {
            LineType::Empty => LineKind::Empty,
            LineType::SectionAdornment(c) => LineKind::SectionAdornment(*c),
            LineType::BulletListItem => LineKind::BulletListItem,
            LineType::EnumeratedListItem(m) => LineKind::EnumeratedListItem(m@),
            LineType::FieldListItem(n, b) => LineKind::FieldListItem(n@, b@),
            LineType::DirectiveStart(n, a) => LineKind::DirectiveStart(n@, a@),
            LineType::DirectiveOption(n, v) => LineKind::DirectiveOption(n@, v@),
            LineType::Comment => LineKind::Comment,
            LineType::SubstitutionDef(n, d, a) => LineKind::SubstitutionDef(n@, d@, a@),
            LineType::Target(n, u) => LineKind::Target(n@, u@),
            LineType::Transition => LineKind::Transition,
            LineType::LineBlockLine => LineKind::LineBlockLine,
            LineType::LiteralBlockMarker => LineKind::LiteralBlockMarker,
            LineType::GridTableLine => LineKind::GridTableLine,
            LineType::SimpleTableBorder => LineKind::SimpleTableBorder,
            LineType::DoctestBlock => LineKind::DoctestBlock,
            LineType::IndentedLine(n) => LineKind::IndentedLine(*n as int),
            LineType::TextLine => LineKind::TextLine,
        }
    }
}

/// The punctuation that can underline a section title.
pub open spec fn adornment_char(c: char) -> bool {
    c == '=' || c == '-' || c == '~' || c == '`' || c == ':' || c == '\'' || c == '"' || c == '^'
        || c == '_' || c == '*' || c == '+' || c == '#' || c == '<' || c == '>'
}

/// Whether `c` can underline a section title.
pub fn is_adornment_char(c: char) -> (b: bool)
    ensures
        b == adornment_char(c),
{
    c == '=' || c == '-' || c == '~' || c == '`' || c == ':' || c == '\'' || c == '"' || c == '^'
        || c == '_' || c == '*' || c == '+' || c == '#' || c == '<' || c == '>'
}

/// Whether every value of `s` is `a` or `b`.
pub open spec fn only(s: Seq<char>, a: char, b: char) -> bool {
    forall|i: int| 0 <= i < s.len() ==> (#[trigger] s[i]) == a || s[i] == b
}

/// Whether every value of `v` is `a` or `b`.
pub fn is_only(v: &Vec<char>, a: char, b: char) -> (r: bool)
    ensures
        r == only(v@, a, b),
{
    let mut i: usize = 0;
    while i < v.len()
        invariant
            i <= v.len(),
            forall|j: int| 0 <= j < i ==> (#[trigger] v@[j]) == a || v@[j] == b,
        decreases v.len() - i,
    {
        if v[i] != a && v[i] != b {
            return false;
        }
        i += 1;
    }
    true
}

/// A run of at least four of one adornment value.
pub open spec fn adornment_run(t: Seq<char>) -> bool {
    t.len() >= 4 && adornment_char(t[0]) && only(t, t[0], t[0])
}

/// Whether `t` is a run of at least four of one adornment value.
pub fn is_section_adornment(t: &Vec<char>) -> (b: bool)
    ensures
        b == adornment_run(t@),
{
    t.len() >= 4 && is_adornment_char(t[0]) && is_only(t, t[0], t[0])
}

/// A border of a grid table: from `+` to `+` with `-` or `=` in it.
pub open spec fn grid_border_like(t: Seq<char>) -> bool {
    first_is(t, '+') && (has_char(t, '-') || has_char(t, '=')) && last_is(t, '+')
}

/// Whether `t` looks like a border of a grid table.
pub fn is_grid_border_like(t: &Vec<char>) -> (b: bool)
    ensures
        b == grid_border_like(t@),
{
    begins_with_char(t, '+') && (contains_char(t, '-') || contains_char(t, '=')) && ends_with_char(
        t,
        '+',
    )
}

/// A border of a simple table: `=` and spaces, with both in it.
pub open spec fn simple_border_like(t: Seq<char>) -> bool {
    only(t, '=', ' ') && has_char(t, '=') && has_char(t, ' ')
}

/// Whether `t` looks like a border of a simple table.
pub fn is_simple_border_like(t: &Vec<char>) -> (b: bool)
    ensures
        b == simple_border_like(t@),
{
    is_only(t, '=', ' ') && contains_char(t, '=') && contains_char(t, ' ')
}

/// The end of an enumerator that is not in brackets: the first `.`, `)` or
/// space at or after `i`, or the length of the line.
pub open spec fn enumerator_end(s: Seq<char>, i: int) -> int
    decreases s.len() - i,
{
    if 0 <= i < s.len() && s[i] != '.' && s[i] != ')' && s[i] != ' ' {
        enumerator_end(s, i + 1)
    } else {
        i
    }
}

/// Whether `s` begins with an enumerator and a space: `(x) `, `x. ` or
/// `x) `.
pub open spec fn enumerated(s: Seq<char>) -> bool {
    if first_is(s, '(') {
        match find_char(s, ')') {
            Some(close) => valid_enumerator(s.subrange(1, close)) && close + 1 < s.len() && s[close
                + 1] == ' ',
            None => false,
        }
    } else {
        let e = enumerator_end(s, 0);
        0 < e && e + 1 < s.len() && s[e] != ' ' && valid_enumerator(s.subrange(0, e)) && s[e + 1]
            == ' '
    }
}

/// Whether `v` begins with an enumerator and a space.
pub fn is_enumerated_list_item(v: &Vec<char>) -> (b: bool)
    ensures
        b == enumerated(v@),
{
    if begins_with_char(v, '(') {
        match find_char_in(v, ')', 0) {
            Some(close) => {
                let marker = copy_range(v, 1, close);
                is_valid_enumerator(&marker) && v.len() - close > 1 && v[close + 1] == ' '
            },
            None => false,
        }
    } else {
        let mut e: usize = 0;
        while e < v.len() && v[e] != '.' && v[e] != ')' && v[e] != ' '
            invariant
                e <= v.len(),
                enumerator_end(v@, e as int) == enumerator_end(v@, 0),
            decreases v.len() - e,
        {
            e += 1;
        }
        if 0 < e && e < v.len() && v.len() - e > 1 && v[e] != ' ' {
            let marker = take(v, e);
            is_valid_enumerator(&marker) && v[e + 1] == ' '
        } else {
            false
        }
    }
}

/// The first index at or after `i` that holds `.` or `)`.
pub open spec fn marker_close(s: Seq<char>, i: int) -> int
    decreases s.len() - i,
{
    if 0 <= i < s.len() && s[i] != '.' && s[i] != ')' {
        marker_close(s, i + 1)
    } else {
        i
    }
}

/// The enumerator that `s` begins with, with its brackets or its dot.
pub open spec fn enumerator_of(s: Seq<char>) -> Seq<char> {
    if first_is(s, '(') && find_char(s, ')') is Some {
        s.subrange(0, find_char(s, ')').unwrap() + 1)
    } else {
        let e = marker_close(s, 0);
        if e < s.len() {
            s.subrange(0, e + 1)
        } else {
            Seq::empty()
        }
    }
}

fn extract_enum_marker(v: &Vec<char>) -> (r: Vec<char>)
    ensures
        r@ == enumerator_of(v@),
{
    if begins_with_char(v, '(') {
        if let Some(close) = find_char_in(v, ')', 0) {
            return take(v, close + 1);
        }
    }
    let mut e: usize = 0;
    while e < v.len() && v[e] != '.' && v[e] != ')'
        invariant
            e <= v.len(),
            marker_close(v@, e as int) == marker_close(v@, 0),
        decreases v.len() - e,
    {
        e += 1;
    }
    if e < v.len() {
        take(v, e + 1)
    } else {
        Vec::new()
    }
}

/// A name between two colons at the start of `t`, and the trimmed rest:
/// the index of the second colon, if the line begins with a colon and has
/// another.
pub open spec fn second_colon(t: Seq<char>) -> Option<int> {
    if first_is(t, ':') {
        find_char_from(t, ':', 1)
    } else {
        None
    }
}

/// The name between the two colons at the start of `t`.
pub open spec fn colon_name(t: Seq<char>) -> Seq<char> {
    t.subrange(1, second_colon(t).unwrap())
}

/// What follows the second colon of `t`, trimmed.
pub open spec fn colon_value(t: Seq<char>) -> Seq<char> {
    trimmed(t.subrange(second_colon(t).unwrap() + 1, t.len() as int))
}

/// Whether `t` is a field: a name between colons that is not empty and
/// holds no line feed.
pub open spec fn field_like(t: Seq<char>) -> bool {
    !has_prefix(t, "::"@) && second_colon(t) is Some && colon_name(t).len() > 0 && !has_char(
        colon_name(t),
        '\n',
    )
}

/// Two parsed texts over mathematical texts.
pub open spec fn name_value_view(r: Option<(Vec<char>, Vec<char>)>) -> Option<
    (Seq<char>, Seq<char>),
> {
    match r {
        Some((a, b)) => Some((a@, b@)),
        None => None,
    }
}

/// The name and the value of a line of the form `:name: value`.
pub fn colon_parts(t: &Vec<char>) -> (r: Option<(Vec<char>, Vec<char>)>)
    ensures
        name_value_view(r) == match second_colon(t@) {
            Some(k) => Some((colon_name(t@), colon_value(t@))),
            None => None,
        },
{
    if !begins_with_char(t, ':') {
        return None;
    }
    match find_char_in(t, ':', 1) {
        Some(k) => {
            let name = copy_range(t, 1, k);
            let rest = skip(t, k + 1);
            Some((name, trim(&rest)))
        },
        None => None,
    }
}

/// A substitution definition after `.. `: `|name| directive:: arguments`.
pub open spec fn substitution_parts(rest: Seq<char>) -> Option<
    (Seq<char>, Seq<char>, Seq<char>),
> {
    if !first_is(rest, '|') {
        None
    } else {
        match find_char_from(rest, '|', 1) {
            Some(p) => {
                let after = trimmed(rest.subrange(p + 1, rest.len() as int));
                match find(after, "::"@) {
                    Some(c) => Some(
                        (
                            rest.subrange(1, p),
                            trimmed(after.subrange(0, c)),
                            trimmed(after.subrange(c + 2, after.len() as int)),
                        ),
                    ),
                    None => None,
                }
            },
            None => None,
        }
    }
}

/// Three parsed texts over mathematical texts.
pub open spec fn three_view(r: Option<(Vec<char>, Vec<char>, Vec<char>)>) -> Option<
    (Seq<char>, Seq<char>, Seq<char>),
> {
    match r {
        Some((a, b, c)) => Some((a@, b@, c@)),
        None => None,
    }
}

/// Reads a substitution definition: the name, the directive and its arguments.
pub fn parse_substitution(rest: &Vec<char>) -> (r: Option<(Vec<char>, Vec<char>, Vec<char>)>)
    ensures
        three_view(r) == substitution_parts(rest@),
{
    if !begins_with_char(rest, '|') {
        return None;
    }
    match find_char_in(rest, '|', 1) {
        Some(p) => {
            let tail = skip(rest, p + 1);
            let after = trim(&tail);
            proof {
                reveal_strlit("::");
            }
            match find_str(&after, "::") {
                Some(c) => {
                    let name = copy_range(rest, 1, p);
                    let kind = take(&after, c);
                    let args = skip(&after, c + 2);
                    Some((name, trim(&kind), trim(&args)))
                },
                None => None,
            }
        },
        None => None,
    }
}

/// A hyperlink target after `.. `: `_name: address`, or `_name:` alone.
pub open spec fn target_parts(rest: Seq<char>) -> Option<(Seq<char>, Seq<char>)> {
    if !first_is(rest, '_') {
        None
    } else {
        let tr = rest.subrange(1, rest.len() as int);
        match find(tr, ": "@) {
            Some(c) => Some(
                (trimmed(tr.subrange(0, c)), trimmed(tr.subrange(c + 2, tr.len() as int))),
            ),
            None => if last_is(tr, ':') {
                Some((trimmed(tr.subrange(0, tr.len() - 1)), Seq::empty()))
            } else {
                None
            },
        }
    }
}

/// Reads a hyperlink target: the name and the address.
pub fn parse_target(rest: &Vec<char>) -> (r: Option<(Vec<char>, Vec<char>)>)
    ensures
        name_value_view(r) == target_parts(rest@),
{
    if !begins_with_char(rest, '_') {
        return None;
    }
    let tr = skip(rest, 1);
    proof {
        reveal_strlit(": ");
    }
    match find_str(&tr, ": ") {
        Some(c) => {
            let name = take(&tr, c);
            let url = skip(&tr, c + 2);
            Some((trim(&name), trim(&url)))
        },
        None => {
            if ends_with_char(&tr, ':') {
                let name = take(&tr, tr.len() - 1);
                Some((trim(&name), Vec::new()))
            } else {
                None
            }
        },
    }
}

/// A directive after `.. `: `name:: arguments`, where the name is not empty
/// and holds no space.
pub open spec fn directive_parts(rest: Seq<char>) -> Option<(Seq<char>, Seq<char>)> {
    match find(rest, "::"@) {
        Some(c) => {
            let name = trimmed(rest.subrange(0, c));
            if name.len() > 0 && !has_char(name, ' ') {
                Some((name, trimmed(rest.subrange(c + 2, rest.len() as int))))
            } else {
                None
            }
        },
        None => None,
    }
}

/// Reads the start of a directive: the name and the arguments.
pub fn parse_directive(rest: &Vec<char>) -> (r: Option<(Vec<char>, Vec<char>)>)
    ensures
        name_value_view(r) == directive_parts(rest@),
{
    proof {
        reveal_strlit("::");
    }
    match find_str(rest, "::") {
        Some(c) => {
            let front = take(rest, c);
            let name = trim(&front);
            if name.len() > 0 && !contains_char(&name, ' ') {
                let back = skip(rest, c + 2);
                Some((name, trim(&back)))
            } else {
                None
            }
        },
        None => None,
    }
}

/// The kind of a line that begins with `.. `, given what follows that.
pub open spec fn explicit_kind(rest: Seq<char>) -> LineKind {
    if substitution_parts(rest) is Some {
        let (name, kind, args) = substitution_parts(rest).unwrap();
        LineKind::SubstitutionDef(name, kind, args)
    } else if target_parts(rest) is Some {
        let (name, url) = target_parts(rest).unwrap();
        LineKind::Target(name, url)
    } else if directive_parts(rest) is Some {
        let (name, args) = directive_parts(rest).unwrap();
        LineKind::DirectiveStart(name, args)
    } else {
        LineKind::Comment
    }
}

/// Whether an indented line that begins with a colon is an option of a
/// directive.
pub open spec fn option_like(line: Seq<char>, t: Seq<char>) -> bool {
    indent(line) > 0 && second_colon(t) is Some && (!has_char(colon_name(t), ' ') || colon_name(
        t,
    ).len() < 30)
}

/// The kind of a line.
pub open spec fn line_kind(line: Seq<char>) -> LineKind {
    let t = trimmed(line);
    if blank(line) {
        LineKind::Empty
    } else if has_prefix(t, ">>>"@) {
        LineKind::DoctestBlock
    } else if has_prefix(t, "| "@) || t == "|"@ {
        LineKind::LineBlockLine
    } else if t == "::"@ {
        LineKind::LiteralBlockMarker
    } else if grid_border_like(t) || (first_is(t, '|') && last_is(t, '|')) {
        LineKind::GridTableLine
    } else if simple_border_like(t) {
        LineKind::SimpleTableBorder
    } else if adornment_run(t) {
        LineKind::SectionAdornment(t[0])
    } else if has_prefix(t, ".. "@) {
        explicit_kind(t.subrange(3, t.len() as int))
    } else if field_like(t) {
        LineKind::FieldListItem(colon_name(t), colon_value(t))
    } else if bullet_start(t) && t.len() > 2 {
        LineKind::BulletListItem
    } else if enumerated(t) {
        LineKind::EnumeratedListItem(enumerator_of(t))
    } else if option_like(line, t) {
        LineKind::DirectiveOption(colon_name(t), colon_value(t))
    } else if indent(line) > 0 {
        LineKind::IndentedLine(indent(line))
    } else {
        LineKind::TextLine
    }
}

fn classify_explicit(rest: &Vec<char>) -> (r: LineType)
    ensures
        r@ == explicit_kind(rest@),
{
    if let Some((name, kind, args)) = parse_substitution(rest) {
        return LineType::SubstitutionDef(string_of(&name), string_of(&kind), string_of(&args));
    }
    if let Some((name, url)) = parse_target(rest) {
        return LineType::Target(string_of(&name), string_of(&url));
    }
    if let Some((name, args)) = parse_directive(rest) {
        return LineType::DirectiveStart(string_of(&name), string_of(&args));
    }
    LineType::Comment
}

/// Classifies one line.
pub fn classify_text(line: &Vec<char>) -> (r: LineType)
    ensures
        r@ == line_kind(line@),
{
    if is_blank(line) {
        return LineType::Empty;
    }
    let t = trim(line);
    if starts_with(&t, ">>>") {
        return LineType::DoctestBlock;
    }
    if starts_with(&t, "| ") || is_str(&t, "|") {
        return LineType::LineBlockLine;
    }
    if is_str(&t, "::") {
        return LineType::LiteralBlockMarker;
    }
    if is_grid_border_like(&t) || (begins_with_char(&t, '|') && ends_with_char(&t, '|')) {
        return LineType::GridTableLine;
    }
    if is_simple_border_like(&t) {
        return LineType::SimpleTableBorder;
    }
    if is_section_adornment(&t) {
        return LineType::SectionAdornment(t[0]);
    }
    if starts_with(&t, ".. ") {
        proof {
            reveal_strlit(".. ");
        }
        let rest = skip(&t, 3);
        return classify_explicit(&rest);
    }
    let parts = colon_parts(&t);
    if !starts_with(&t, "::") {
        if let Some((name, value)) = &parts {
            if name.len() > 0 && !contains_char(name, '\n') {
                return LineType::FieldListItem(string_of(name), string_of(value));
            }
        }
    }
    if is_bullet_start(&t) && t.len() > 2 {
        return LineType::BulletListItem;
    }
    if is_enumerated_list_item(&t) {
        let marker = extract_enum_marker(&t);
        return LineType::EnumeratedListItem(string_of(&marker));
    }
    let ind = indent_of(line);
    if ind > 0 {
        if let Some((name, value)) = &parts {
            if !contains_char(name, ' ') || name.len() < 30 {
                return LineType::DirectiveOption(string_of(name), string_of(value));
            }
        }
        return LineType::IndentedLine(ind);
    }
    LineType::TextLine
}

/// Classifies one line.
pub fn classify_line(line: &str) -> (r: LineType)
    ensures
        r@ == line_kind(line@),
{
    let v = chars_of(line);
    classify_text(&v)
}

/// The number of lines at the start of `ls`, from `i` on, that give
/// options: lines that, once trimmed, begin with a colon and have a second
/// colon.
pub open spec fn option_lines_end(ls: Seq<Seq<char>>, i: int) -> int
    decreases ls.len() - i,
{
    if 0 <= i < ls.len() && second_colon(trimmed(ls[i])) is Some {
        option_lines_end(ls, i + 1)
    } else {
        i
    }
}

/// The options that the lines `ls[..n]` give.
pub open spec fn options_upto(ls: Seq<Seq<char>>, n: int) -> Map<Seq<char>, Seq<char>>
    decreases n,
{
    if n <= 0 {
        Map::empty()
    } else {
        options_upto(ls, n - 1).insert(
            colon_name(trimmed(ls[n - 1])),
            colon_value(trimmed(ls[n - 1])),
        )
    }
}

/// The texts that a slice of strings holds.
pub open spec fn strs_view(v: Seq<&str>) -> Seq<Seq<char>> {
    Seq::new(v.len(), |i: int| v[i]@)
}

/// Reads the options that follow a directive: one per line of the form
/// `:name: value`, up to the first line of another form. Returns the
/// options and the number of lines read.
pub fn parse_directive_options(lines: &[&str]) -> (r: (Options, usize))
    ensures
        r.1 == option_lines_end(strs_view(lines@), 0),
        r.0@ == options_upto(strs_view(lines@), r.1 as int),
{
    let mut options = Options::new();
    let mut i: usize = 0;
    let ghost ls = strs_view(lines@);
    while i < lines.len()
        invariant
            i <= lines.len(),
            ls == strs_view(lines@),
            option_lines_end(ls, i as int) == option_lines_end(ls, 0),
            options@ == options_upto(ls, i as int),
        decreases lines.len() - i,
    {
        assert(ls[i as int] == lines@[i as int]@);
        let v = chars_of(lines[i]);
        let t = trim(&v);
        match colon_parts(&t) {
            Some((name, value)) => {
                options.put(name, value);
                i += 1;
            },
            None => {
                return (options, i);
            },
        }
    }
    (options, i)
}

} // verus!
