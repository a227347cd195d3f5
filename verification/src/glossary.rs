//! Directives that read their content line by line: glossaries, grammar
//! productions, tables of documents, and code points.

use vstd::prelude::*;
use crate::chars::{lowercase, to_lowercase};
use crate::html_utils::{escape, escaped, slug, slugify_text};
use crate::inline::{inline_html, process_inline_text};
use crate::lines::{lines_of, lines_view, push_line, split_lines};
use crate::lists::continued;
use crate::number::{parse_number, parsed};
use crate::search::{
    begins_with_char, find_char, find_char_from, find_char_in, first_is, has_prefix, starts_with,
};
use crate::tables::data::{split_words, words};
use crate::text::{
    blank, concat3, concat5, copy_range, extend, lemma_concat_assoc, push_str, skip, take, trim,
    trim_end, trimmed, trimmed_end,
};

verus! {

/// One entry of a glossary: its terms and its definition.
pub struct GlossaryEntry {
    pub terms: Vec<Vec<char>>,
    pub definition: Vec<char>,
}

/// An entry of a glossary over mathematical texts.
pub struct EntryView {
    pub terms: Seq<Seq<char>>,
    pub definition: Seq<char>,
}

impl View for GlossaryEntry {
    type V = EntryView;

    open spec fn view(&self) -> EntryView {
        EntryView { terms: lines_view(self.terms@), definition: self.definition@ }
    }
}

/// The entries that a vector of entries holds.
pub open spec fn entries_view(v: Seq<GlossaryEntry>) -> Seq<EntryView> {
    Seq::new(v.len(), |i: int| v[i]@)
}

/// Whether a line of a glossary belongs to a definition: it begins with
/// three spaces or a tab.
pub open spec fn definition_line(t: Seq<char>) -> bool {
    has_prefix(t, "   "@) || first_is(t, '\t')
}

/// The entries that the lines from `i` on give, where `terms` and `def`
/// are the terms and the definition being read. A blank line ends an entry
/// that has a term and a definition; a term after a definition begins a
/// new entry.
pub open spec fn glossary_scan(ls: Seq<Seq<char>>, i: int, terms: Seq<Seq<char>>, def: Seq<char>)
    -> Seq<EntryView>
    decreases ls.len() - i,
{
    if i < 0 || i >= ls.len() {
        if terms.len() > 0 {
            seq![EntryView { terms, definition: trimmed(def) }]
        } else {
            Seq::empty()
        }
    } else {
        let t = trimmed_end(ls[i]);
        if t.len() == 0 {
            if terms.len() > 0 && def.len() > 0 {
                seq![EntryView { terms, definition: trimmed(def) }] + glossary_scan(
                    ls,
                    i + 1,
                    Seq::empty(),
                    Seq::empty(),
                )
            } else {
                glossary_scan(ls, i + 1, terms, def)
            }
        } else if definition_line(t) {
            glossary_scan(ls, i + 1, terms, continued(def, trimmed(t)))
        } else if def.len() > 0 {
            seq![EntryView { terms, definition: trimmed(def) }] + glossary_scan(
                ls,
                i + 1,
                seq![t],
                Seq::empty(),
            )
        } else {
            glossary_scan(ls, i + 1, terms.push(t), def)
        }
    }
}

/// The entries of a glossary.
pub open spec fn glossary_entries(content: Seq<char>) -> Seq<EntryView> {
    glossary_scan(lines_of(content), 0, Seq::empty(), Seq::empty())
}

fn push_entry(out: &mut Vec<GlossaryEntry>, terms: Vec<Vec<char>>, def: &Vec<char>)
    ensures
        entries_view(final(out)@) == entries_view(old(out)@).push(
            EntryView { terms: lines_view(terms@), definition: trimmed(def@) },
        ),
{
    let entry = GlossaryEntry { terms, definition: trim(def) };
    out.push(entry);
    assert(entries_view(out@) =~= entries_view(old(out)@).push(entry@));
}

/// Reads the entries of a glossary.
pub fn parse_glossary(content: &Vec<char>) -> (r: Vec<GlossaryEntry>)
    ensures
        entries_view(r@) == glossary_entries(content@),
{
    let lines = split_lines(content);
    let ghost ls = lines_view(lines@);
    let mut out: Vec<GlossaryEntry> = Vec::new();
    let mut terms: Vec<Vec<char>> = Vec::new();
    let mut def: Vec<char> = Vec::new();
    let mut i: usize = 0;
    assert(entries_view(out@) =~= Seq::empty());
    assert(lines_view(terms@) =~= Seq::empty());
    while i < lines.len()
        invariant
            i <= lines.len(),
            ls == lines_view(lines@),
            entries_view(out@) + glossary_scan(ls, i as int, lines_view(terms@), def@)
                == glossary_entries(content@),
        decreases lines.len() - i,
    {
        assert(ls[i as int] == lines@[i as int]@);
        let t = trim_end(&lines[i]);
        let ghost before = entries_view(out@);
        let ghost tv = lines_view(terms@);
        if t.len() == 0 {
            if terms.len() > 0 && def.len() > 0 {
                let ghost rest = glossary_scan(ls, i + 1, Seq::empty(), Seq::empty());
                let ghost e = EntryView { terms: tv, definition: trimmed(def@) };
                push_entry(&mut out, terms, &def);
                assert(before.push(e) + rest =~= before + (seq![e] + rest));
                terms = Vec::new();
                def = Vec::new();
                assert(lines_view(terms@) =~= Seq::empty());
            }
        } else if starts_with(&t, "   ") || begins_with_char(&t, '\t') {
            if def.len() > 0 {
                push_str(&mut def, " ");
            }
            let inner = trim(&t);
            extend(&mut def, &inner);
        } else if def.len() > 0 {
            let ghost rest = glossary_scan(ls, i + 1, seq![t@], Seq::empty());
            let ghost e = EntryView { terms: tv, definition: trimmed(def@) };
            push_entry(&mut out, terms, &def);
            assert(before.push(e) + rest =~= before + (seq![e] + rest));
            terms = Vec::new();
            def = Vec::new();
            push_line(&mut terms, t);
            assert(lines_view(terms@) =~= seq![t@]);
        } else {
            push_line(&mut terms, t);
        }
        i += 1;
    }
    let ghost before = entries_view(out@);
    if terms.len() > 0 {
        let ghost e = EntryView { terms: lines_view(terms@), definition: trimmed(def@) };
        push_entry(&mut out, terms, &def);
        assert(before.push(e) =~= before + seq![e]);
    } else {
        assert(before + Seq::<EntryView>::empty() =~= before);
    }
    out
}

/// Whether `a` comes before `b` from index `i` on, value by value; a text
/// comes before every text that it begins.
pub open spec fn text_before(a: Seq<char>, b: Seq<char>, i: int) -> bool
    decreases a.len() - i,
{
    if i >= b.len() {
        false
    } else if i < 0 || i >= a.len() {
        true
    } else if a[i] != b[i] {
        (a[i] as u32) < (b[i] as u32)
    } else {
        text_before(a, b, i + 1)
    }
}

/// Whether `a` comes before `b`, value by value.
pub fn is_text_before(a: &Vec<char>, b: &Vec<char>) -> (r: bool)
    ensures
        r == text_before(a@, b@, 0),
{
    let mut i: usize = 0;
    while i < a.len() && i < b.len()
        invariant
            i <= a.len(),
            i <= b.len(),
            text_before(a@, b@, i as int) == text_before(a@, b@, 0),
        decreases a.len() - i,
    {
        if a[i] != b[i] {
            return (a[i] as u32) < (b[i] as u32);
        }
        i += 1;
    }
    i < b.len()
}

/// The text by which an entry is sorted: its first term in lower case.
pub open spec fn sort_key(e: EntryView) -> Seq<char> {
    if e.terms.len() > 0 {
        lowercase(e.terms[0])
    } else {
        Seq::empty()
    }
}

/// Where `key` goes among the first `n` sorted keys: after every key that
/// does not come after it.
pub open spec fn insert_position(keys: Seq<Seq<char>>, key: Seq<char>, n: int) -> int
    decreases n,
{
    if n <= 0 {
        0
    } else if text_before(key, keys[n - 1], 0) {
        insert_position(keys, key, n - 1)
    } else {
        n
    }
}

/// The order in which the first `n` entries stand once sorted by their
/// keys, as indices into the entries: each entry is inserted in turn, after
/// the entries that do not come after it, so that entries with the same
/// key keep their order.
pub open spec fn sorted_order(keys: Seq<Seq<char>>, n: int) -> Seq<int>
    decreases n,
{
    if n <= 0 {
        Seq::empty()
    } else {
        let before = sorted_order(keys, n - 1);
        let placed = Seq::new(before.len(), |k: int| keys[before[k]]);
        before.insert(insert_position(placed, keys[n - 1], before.len() as int), n - 1)
    }
}

/// No two texts come before each other.
pub proof fn lemma_text_before_one_way(a: Seq<char>, b: Seq<char>, i: int)
    requires
        0 <= i,
    ensures
        text_before(a, b, i) ==> !text_before(b, a, i),
    decreases a.len() - i,
{
    if i < a.len() && i < b.len() && a[i] == b[i] {
        lemma_text_before_one_way(a, b, i + 1);
    }
}

/// A text that comes before another comes before every third text, or the
/// third comes before the other.
pub proof fn lemma_text_before_parts(c: Seq<char>, a: Seq<char>, b: Seq<char>, i: int)
    requires
        0 <= i,
        text_before(c, a, i),
    ensures
        text_before(c, b, i) || text_before(b, a, i),
    decreases a.len() - i,
{
    if i < c.len() && i < b.len() {
        lemma_code_tells(c[i], a[i]);
        lemma_code_tells(c[i], b[i]);
        lemma_code_tells(b[i], a[i]);
        if c[i] == a[i] && b[i] == c[i] {
            lemma_text_before_parts(c, a, b, i + 1);
        }
    }
}

/// Two scalar values with the same code are the same.
proof fn lemma_code_tells(x: char, y: char)
    ensures
        (x as u32) == (y as u32) <==> x == y,
{
}

proof fn lemma_insert_position(keys: Seq<Seq<char>>, key: Seq<char>, n: int)
    requires
        0 <= n <= keys.len(),
    ensures
        0 <= insert_position(keys, key, n) <= n,
        forall|k: int|
            insert_position(keys, key, n) <= k < n ==> text_before(key, #[trigger] keys[k], 0),
        insert_position(keys, key, n) > 0 ==> !text_before(
            key,
            keys[insert_position(keys, key, n) - 1],
            0,
        ),
    decreases n,
{
    if n > 0 && text_before(key, keys[n - 1], 0) {
        lemma_insert_position(keys, key, n - 1);
    }
}

/// Whether `order` lists the indices below `n`, each of them once, so that
/// no key comes before a key that stands ahead of it, and keys of which
/// neither comes before the other stand in the order of their indices.
pub open spec fn sorted_permutation(keys: Seq<Seq<char>>, order: Seq<int>, n: int) -> bool {
    &&& order.len() == n
    &&& forall|k: int| 0 <= k < n ==> 0 <= #[trigger] order[k] < n
    &&& forall|j: int, k: int| 0 <= j < k < n ==> #[trigger] order[j] != #[trigger] order[k]
    &&& forall|i: int| 0 <= i < n ==> #[trigger] order.contains(i)
    &&& forall|j: int, k: int|
        0 <= j < k < n ==> !text_before(keys[#[trigger] order[k]], keys[#[trigger] order[j]], 0)
    &&& forall|j: int, k: int|
        0 <= j < k < n && !text_before(keys[#[trigger] order[j]], keys[#[trigger] order[k]], 0)
            ==> order[j] < order[k]
}

/// The sorted order is a permutation of the indices, ordered by key, in
/// which equal keys keep their order.
pub proof fn lemma_sorted_order(keys: Seq<Seq<char>>, n: int)
    requires
        0 <= n <= keys.len(),
    ensures
        sorted_permutation(keys, sorted_order(keys, n), n),
    decreases n,
{
    if n > 0 {
        lemma_sorted_order(keys, n - 1);
        let before = sorted_order(keys, n - 1);
        let placed = Seq::new(before.len(), |k: int| keys[before[k]]);
        let key = keys[n - 1];
        let p = insert_position(placed, key, before.len() as int);
        lemma_insert_position(placed, key, before.len() as int);
        let order = sorted_order(keys, n);
        assert(order == before.insert(p, n - 1));
        assert(order.len() == n);
        assert forall|k: int| 0 <= k < n implies #[trigger] order[k] == (if k < p {
            before[k]
        } else if k == p {
            n - 1
        } else {
            before[k - 1]
        }) by {}
        assert forall|k: int| 0 <= k < n implies 0 <= #[trigger] order[k] < n by {
            if k < p {
                assert(0 <= before[k] < n - 1);
            } else if k > p {
                assert(0 <= before[k - 1] < n - 1);
            }
        }
        assert forall|j: int, k: int| 0 <= j < k < n implies #[trigger] order[j]
            != #[trigger] order[k] by {
            let jj = if j < p {
                j
            } else {
                j - 1
            };
            let kk = if k < p {
                k
            } else {
                k - 1
            };
            if j != p && k != p {
                assert(before[jj] != before[kk]);
            } else if j == p {
                assert(0 <= before[kk] < n - 1);
            } else {
                assert(0 <= before[jj] < n - 1);
            }
        }
        assert forall|i: int| 0 <= i < n implies #[trigger] order.contains(i) by {
            if i == n - 1 {
                assert(order[p] == i);
            } else {
                assert(before.contains(i));
                let k = choose|k: int| 0 <= k < before.len() && before[k] == i;
                if k < p {
                    assert(order[k] == i);
                } else {
                    assert(order[k + 1] == i);
                }
            }
        }
        assert forall|j: int, k: int| 0 <= j < k < n implies !text_before(
            keys[#[trigger] order[k]],
            keys[#[trigger] order[j]],
            0,
        ) by {
            if j != p && k != p {
                let jj = if j < p {
                    j
                } else {
                    j - 1
                };
                let kk = if k < p {
                    k
                } else {
                    k - 1
                };
                assert(!text_before(keys[before[kk]], keys[before[jj]], 0));
            } else if k == p {
                assert(placed[j] == keys[before[j]]);
                assert(placed[p - 1] == keys[before[p - 1]]);
                if text_before(key, placed[j], 0) {
                    lemma_text_before_parts(key, placed[j], placed[p - 1], 0);
                    if j < p - 1 {
                        assert(!text_before(keys[before[p - 1]], keys[before[j]], 0));
                    }
                }
            } else {
                assert(placed[k - 1] == keys[before[k - 1]]);
                assert(text_before(key, placed[k - 1], 0));
                lemma_text_before_one_way(key, placed[k - 1], 0);
            }
        }
        assert forall|j: int, k: int|
            0 <= j < k < n && !text_before(
                keys[#[trigger] order[j]],
                keys[#[trigger] order[k]],
                0,
            ) implies order[j] < order[k] by {
            if j != p && k != p {
                let jj = if j < p {
                    j
                } else {
                    j - 1
                };
                let kk = if k < p {
                    k
                } else {
                    k - 1
                };
                assert(!text_before(keys[before[jj]], keys[before[kk]], 0));
                assert(before[jj] < before[kk]);
            } else if k == p {
                assert(0 <= before[j] < n - 1);
            } else {
                assert(placed[k - 1] == keys[before[k - 1]]);
                assert(text_before(key, placed[k - 1], 0));
            }
        }
    }
}

/// An order over mathematical integers.
pub open spec fn order_view(v: Seq<usize>) -> Seq<int> {
    Seq::new(v.len(), |k: int| v[k] as int)
}

/// The order in which the keys stand once sorted, as indices into the
/// keys; equal keys keep their order.
pub fn sort_order(keys: &Vec<Vec<char>>) -> (r: Vec<usize>)
    ensures
        order_view(r@) == sorted_order(lines_view(keys@), keys.len() as int),
        sorted_permutation(lines_view(keys@), order_view(r@), keys.len() as int),
        r.len() == keys.len(),
        forall|k: int| 0 <= k < r@.len() ==> (#[trigger] r@[k]) < keys.len(),
{
    let ghost kv = lines_view(keys@);
    proof {
        lemma_sorted_order(kv, keys.len() as int);
    }
    let mut order: Vec<usize> = Vec::new();
    let mut n: usize = 0;
    assert(order_view(order@) =~= Seq::empty());
    while n < keys.len()
        invariant
            n <= keys.len(),
            kv == lines_view(keys@),
            order.len() == n,
            order_view(order@) == sorted_order(kv, n as int),
            forall|k: int| 0 <= k < order@.len() ==> (#[trigger] order@[k]) < n,
        decreases keys.len() - n,
    {
        let ghost before = order_view(order@);
        let ghost placed = Seq::new(before.len(), |k: int| kv[before[k]]);
        let mut pos: usize = order.len();
        while pos > 0 && is_text_before(&keys[n], &keys[order[pos - 1]])
            invariant
                pos <= order.len(),
                n < keys.len(),
                order.len() == n,
                kv == lines_view(keys@),
                before == order_view(order@),
                placed == Seq::new(before.len(), |k: int| kv[before[k]]),
                forall|k: int| 0 <= k < order@.len() ==> (#[trigger] order@[k]) < n,
                insert_position(placed, kv[n as int], pos as int) == insert_position(
                    placed,
                    kv[n as int],
                    before.len() as int,
                ),
            decreases pos,
        {
            pos -= 1;
            proof {
                if pos > 0 {
                    assert(placed[pos - 1] == kv[before[pos - 1]]);
                    assert(before[pos - 1] == order@[pos - 1] as int);
                    assert(kv[order@[pos - 1] as int] == keys@[order@[pos - 1] as int]@);
                }
            }
        }
        proof {
            assert(kv[n as int] == keys@[n as int]@);
            if pos > 0 {
                assert(placed[pos - 1] == kv[before[pos - 1]]);
                assert(before[pos - 1] == order@[pos - 1] as int);
                assert(kv[order@[pos - 1] as int] == keys@[order@[pos - 1] as int]@);
            }
        }
        order.insert(pos, n);
        assert(order_view(order@) =~= before.insert(pos as int, n as int));
        n += 1;
    }
    order
}

/// The HTML of the first `n` terms of an entry.
pub open spec fn terms_upto(terms: Seq<Seq<char>>, n: int) -> Seq<char>
    decreases n,
{
    if n <= 0 {
        Seq::empty()
    } else {
        terms_upto(terms, n - 1) + "<dt id=\"term-"@ + slug(terms[n - 1]) + "\">"@ + escaped(
            terms[n - 1],
        ) + "</dt>\n"@
    }
}

/// The terms and the definition of one entry.
pub open spec fn entry_html(e: EntryView) -> Seq<char> {
    terms_upto(e.terms, e.terms.len() as int) + if e.definition.len() > 0 {
        "<dd>"@ + inline_html(e.definition) + "</dd>\n"@
    } else {
        Seq::empty()
    }
}

/// The HTML of the first `n` entries in the given order.
pub open spec fn entries_upto(entries: Seq<EntryView>, order: Seq<int>, n: int) -> Seq<char>
    decreases n,
{
    if n <= 0 {
        Seq::empty()
    } else {
        entries_upto(entries, order, n - 1) + entry_html(entries[order[n - 1]])
    }
}

/// The order in which the entries of a glossary are written: as they
/// stand, or sorted by their first terms without regard to case.
pub open spec fn glossary_order(entries: Seq<EntryView>, sorted: bool) -> Seq<int> {
    if sorted {
        sorted_order(Seq::new(entries.len(), |i: int| sort_key(entries[i])), entries.len() as int)
    } else {
        Seq::new(entries.len(), |i: int| i)
    }
}

/// A sorted glossary lists every entry once, ordered by the keys of the
/// entries; entries with the same key keep their order.
pub proof fn lemma_glossary_is_sorted(entries: Seq<EntryView>)
    ensures
        sorted_permutation(
            Seq::new(entries.len(), |i: int| sort_key(entries[i])),
            glossary_order(entries, true),
            entries.len() as int,
        ),
{
    lemma_sorted_order(
        Seq::new(entries.len(), |i: int| sort_key(entries[i])),
        entries.len() as int,
    );
}

/// The HTML of a glossary.
pub open spec fn glossary_html(content: Seq<char>, sorted: bool) -> Seq<char> {
    let entries = glossary_entries(content);
    "<dl class=\"glossary\">\n"@ + entries_upto(
        entries,
        glossary_order(entries, sorted),
        entries.len() as int,
    ) + "</dl>"@
}

fn render_entry(e: &GlossaryEntry) -> (r: Vec<char>)
    ensures
        r@ == entry_html(e@),
{
    let mut out: Vec<char> = Vec::new();
    let mut k: usize = 0;
    let ghost tv = lines_view(e.terms@);
    while k < e.terms.len()
        invariant
            k <= e.terms.len(),
            tv == lines_view(e.terms@),
            out@ == terms_upto(tv, k as int),
        decreases e.terms.len() - k,
    {
        assert(tv[k as int] == e.terms@[k as int]@);
        let id = slugify_text(&e.terms[k]);
        let shown = escape(&e.terms[k]);
        push_str(&mut out, "<dt id=\"term-");
        extend(&mut out, &id);
        push_str(&mut out, "\">");
        extend(&mut out, &shown);
        push_str(&mut out, "</dt>\n");
        k += 1;
    }
    if e.definition.len() > 0 {
        let h = process_inline_text(&e.definition);
        let dd = concat3("<dd>", &h, "</dd>\n");
        extend(&mut out, &dd);
    } else {
        assert(out@ + Seq::<char>::empty() =~= out@);
    }
    out
}

/// Renders a glossary.
pub fn render_glossary(content: &Vec<char>, sorted: bool) -> (r: Vec<char>)
    ensures
        r@ == glossary_html(content@, sorted),
{
    let entries = parse_glossary(content);
    let ghost ev = entries_view(entries@);
    let mut order: Vec<usize> = Vec::new();
    if sorted {
        let mut keys: Vec<Vec<char>> = Vec::new();
        let mut i: usize = 0;
        assert(lines_view(keys@) =~= Seq::new(0, |i: int| sort_key(ev[i])));
        while i < entries.len()
            invariant
                i <= entries.len(),
                ev == entries_view(entries@),
                keys.len() == i,
                lines_view(keys@) == Seq::new(i as nat, |j: int| sort_key(ev[j])),
            decreases entries.len() - i,
        {
            assert(ev[i as int] == entries@[i as int]@);
            let key = if entries[i].terms.len() > 0 {
                assert(lines_view(entries@[i as int].terms@)[0] == entries@[i as int].terms@[0]@);
                to_lowercase(&entries[i].terms[0])
            } else {
                Vec::new()
            };
            push_line(&mut keys, key);
            i += 1;
            assert(lines_view(keys@) =~= Seq::new(i as nat, |j: int| sort_key(ev[j])));
        }
        order = sort_order(&keys);
    } else {
        let mut i: usize = 0;
        while i < entries.len()
            invariant
                i <= entries.len(),
                order.len() == i,
                forall|k: int| 0 <= k < order@.len() ==> (#[trigger] order@[k]) == k,
            decreases entries.len() - i,
        {
            order.push(i);
            i += 1;
        }
        assert(order_view(order@) =~= Seq::new(entries.len() as nat, |j: int| j));
    }
    let ghost ov = order_view(order@);
    let mut body: Vec<char> = Vec::new();
    let mut n: usize = 0;
    while n < order.len()
        invariant
            n <= order.len(),
            order.len() == entries.len(),
            ev == entries_view(entries@),
            ov == order_view(order@),
            forall|k: int| 0 <= k < order@.len() ==> (#[trigger] order@[k]) < entries.len(),
            body@ == entries_upto(ev, ov, n as int),
        decreases order.len() - n,
    {
        let at = order[n];
        assert(ov[n as int] == at as int);
        assert(ev[at as int] == entries@[at as int]@);
        let h = render_entry(&entries[at]);
        extend(&mut body, &h);
        n += 1;
    }
    concat3("<dl class=\"glossary\">\n", &body, "</dl>")
}

/// A grammar rule from index `i` on, in which each name in backquotes
/// refers to the production of that name. After a backquote that is never
/// closed nothing more is written.
pub open spec fn production_refs_from(s: Seq<char>, i: int) -> Seq<char>
    decreases s.len() - i,
{
    if i < 0 || i >= s.len() {
        Seq::empty()
    } else if s[i] == '`' {
        match find_char_from(s, '`', i + 1) {
            Some(j) => if i < j < s.len() {
                "<a href=\"#grammar-token-"@ + escaped(s.subrange(i + 1, j))
                    + "\" class=\"production-ref\">"@ + escaped(s.subrange(i + 1, j)) + "</a>"@
                    + production_refs_from(s, j + 1)
            } else {
                Seq::empty()
            },
            None => Seq::empty(),
        }
    } else {
        seq![s[i]] + production_refs_from(s, i + 1)
    }
}

fn process_production_refs(rule: &Vec<char>) -> (r: Vec<char>)
    ensures
        r@ == production_refs_from(rule@, 0),
{
    let mut out: Vec<char> = Vec::new();
    let mut i: usize = 0;
    while i < rule.len()
        invariant
            i <= rule.len(),
            out@ + production_refs_from(rule@, i as int) == production_refs_from(rule@, 0),
        decreases rule.len() - i,
    {
        let ghost before = out@;
        if rule[i] == '`' {
            match find_char_in(rule, '`', i + 1) {
                Some(j) => {
                    let name = copy_range(rule, i + 1, j);
                    let e = escape(&name);
                    let link = concat5(
                        "<a href=\"#grammar-token-",
                        &e,
                        "\" class=\"production-ref\">",
                        &e,
                        "</a>",
                    );
                    extend(&mut out, &link);
                    proof {
                        lemma_concat_assoc(before, link@, production_refs_from(rule@, j + 1));
                    }
                    i = j + 1;
                },
                None => {
                    assert(out@ + Seq::<char>::empty() =~= out@);
                    return out;
                },
            }
        } else {
            out.push(rule[i]);
            proof {
                assert(out@ == before + seq![rule@[i as int]]);
                lemma_concat_assoc(
                    before,
                    seq![rule@[i as int]],
                    production_refs_from(rule@, i + 1),
                );
            }
            i += 1;
        }
    }
    assert(out@ + Seq::<char>::empty() =~= out@);
    out
}

/// The production that a line gives: a name, a colon and a rule.
pub open spec fn production_line(line: Seq<char>) -> Seq<char> {
    let t = trimmed(line);
    match find_char(t, ':') {
        Some(p) => if t.len() > 0 {
            "<strong id=\"grammar-token-"@ + escaped(trimmed(t.subrange(0, p))) + "\">"@ + escaped(
                trimmed(t.subrange(0, p)),
            ) + "</strong> ::= "@ + production_refs_from(
                trimmed(t.subrange(p + 1, t.len() as int)),
                0,
            ) + "\n"@
        } else {
            Seq::empty()
        },
        None => Seq::empty(),
    }
}

/// The productions of the first `n` lines.
pub open spec fn productions_upto(ls: Seq<Seq<char>>, n: int) -> Seq<char>
    decreases n,
{
    if n <= 0 {
        Seq::empty()
    } else {
        productions_upto(ls, n - 1) + production_line(ls[n - 1])
    }
}

/// A list of grammar productions.
pub open spec fn productionlist_html(content: Seq<char>) -> Seq<char> {
    "<pre class=\"productionlist\">\n"@ + productions_upto(
        lines_of(content),
        lines_of(content).len() as int,
    ) + "</pre>"@
}

/// Renders a list of grammar productions.
pub fn render_productionlist(content: &Vec<char>) -> (r: Vec<char>)
    ensures
        r@ == productionlist_html(content@),
{
    let lines = split_lines(content);
    let ghost ls = lines_view(lines@);
    let mut body: Vec<char> = Vec::new();
    let mut k: usize = 0;
    while k < lines.len()
        invariant
            k <= lines.len(),
            ls == lines_view(lines@),
            body@ == productions_upto(ls, k as int),
        decreases lines.len() - k,
    {
        assert(ls[k as int] == lines@[k as int]@);
        let t = trim(&lines[k]);
        let mut done = false;
        if t.len() > 0 {
            if let Some(p) = find_char_in(&t, ':', 0) {
                let front = take(&t, p);
                let name = trim(&front);
                let back = skip(&t, p + 1);
                let rule = trim(&back);
                let e = escape(&name);
                let refs = process_production_refs(&rule);
                let mut line = concat5(
                    "<strong id=\"grammar-token-",
                    &e,
                    "\">",
                    &e,
                    "</strong> ::= ",
                );
                extend(&mut line, &refs);
                push_str(&mut line, "\n");
                extend(&mut body, &line);
                done = true;
            }
        }
        if !done {
            assert(body@ + Seq::<char>::empty() =~= body@);
        }
        k += 1;
    }
    concat3("<pre class=\"productionlist\">\n", &body, "</pre>")
}

/// The entry that a line of a table of documents gives; none for a blank
/// line and for a line that begins with a colon.
pub open spec fn toctree_line(line: Seq<char>) -> Seq<char> {
    let t = trimmed(line);
    if t.len() > 0 && !first_is(t, ':') {
        "<li><a href=\""@ + escaped(t) + ".html\">"@ + escaped(t) + "</a></li>\n"@
    } else {
        Seq::empty()
    }
}

/// The entries of the first `n` lines of a table of documents.
pub open spec fn toctree_upto(ls: Seq<Seq<char>>, n: int) -> Seq<char>
    decreases n,
{
    if n <= 0 {
        Seq::empty()
    } else {
        toctree_upto(ls, n - 1) + toctree_line(ls[n - 1])
    }
}

/// Renders the entries of a table of documents.
pub fn render_toctree_entries(content: &Vec<char>) -> (r: Vec<char>)
    ensures
        r@ == toctree_upto(lines_of(content@), lines_of(content@).len() as int),
{
    let lines = split_lines(content);
    let ghost ls = lines_view(lines@);
    let mut body: Vec<char> = Vec::new();
    let mut k: usize = 0;
    while k < lines.len()
        invariant
            k <= lines.len(),
            ls == lines_view(lines@),
            body@ == toctree_upto(ls, k as int),
        decreases lines.len() - k,
    {
        assert(ls[k as int] == lines@[k as int]@);
        let t = trim(&lines[k]);
        if t.len() > 0 && !begins_with_char(&t, ':') {
            let e = escape(&t);
            let line = concat5("<li><a href=\"", &e, ".html\">", &e, "</a></li>\n");
            extend(&mut body, &line);
        } else {
            assert(body@ + Seq::<char>::empty() =~= body@);
        }
        k += 1;
    }
    body
}

/// Whether a code is that of a scalar value.
pub open spec fn scalar_code(n: int) -> bool {
    0 <= n < 0xD800 || 0xE000 <= n <= 0x10FFFF
}

/// The scalar value with a given code.
pub open spec fn scalar(n: int) -> Seq<char> {
    if scalar_code(n) {
        seq![n as char]
    } else {
        Seq::empty()
    }
}

/// What stands for one word of a list of code points: `0x` or `0X` and
/// hexadecimal digits, or decimal digits, give the scalar value with that
/// code, if there is one; any other word stands for itself where `literal`
/// holds, and for nothing otherwise.
pub open spec fn code_point(part: Seq<char>, literal: bool) -> Seq<char> {
    if has_prefix(part, "0x"@) || has_prefix(part, "0X"@) {
        match parsed(part.subrange(2, part.len() as int), 16, 0xFFFF_FFFF) {
            Some(n) => scalar(n),
            None => Seq::empty(),
        }
    } else {
        match parsed(part, 10, 0xFFFF_FFFF) {
            Some(n) => scalar(n),
            None => if literal {
                part
            } else {
                Seq::empty()
            },
        }
    }
}

/// The text that the first `n` words of a list of code points stand for.
pub open spec fn code_points_upto(parts: Seq<Seq<char>>, literal: bool, n: int) -> Seq<char>
    decreases n,
{
    if n <= 0 {
        Seq::empty()
    } else {
        code_points_upto(parts, literal, n - 1) + code_point(parts[n - 1], literal)
    }
}

/// The text that a list of code points stands for.
pub open spec fn unicode_text(args: Seq<char>, literal: bool) -> Seq<char> {
    code_points_upto(words(args), literal, words(args).len() as int)
}

fn push_scalar(out: &mut Vec<char>, n: u64)
    requires
        n <= 0xFFFF_FFFF,
    ensures
        final(out)@ == old(out)@ + scalar(n as int),
{
    match char::from_u32(n as u32) {
        Some(c) => {
            out.push(c);
            assert(c == (n as int) as char);
            assert(out@ =~= old(out)@ + seq![c]);
        },
        None => {
            assert(out@ + Seq::<char>::empty() =~= out@);
        },
    }
}

/// Decodes a list of code points.
pub fn render_unicode(args: &Vec<char>, literal: bool) -> (r: Vec<char>)
    ensures
        r@ == unicode_text(args@, literal),
{
    let parts = split_words(args);
    let ghost ps = lines_view(parts@);
    let mut out: Vec<char> = Vec::new();
    let mut k: usize = 0;
    while k < parts.len()
        invariant
            k <= parts.len(),
            ps == lines_view(parts@),
            out@ == code_points_upto(ps, literal, k as int),
        decreases parts.len() - k,
    {
        assert(ps[k as int] == parts@[k as int]@);
        let part = &parts[k];
        if starts_with(part, "0x") || starts_with(part, "0X") {
            proof {
                reveal_strlit("0x");
                reveal_strlit("0X");
            }
            let hex = skip(part, 2);
            match parse_number(&hex, 16, 0xFFFF_FFFF) {
                Some(n) => {
                    push_scalar(&mut out, n);
                },
                None => {
                    assert(out@ + Seq::<char>::empty() =~= out@);
                },
            }
        } else {
            match parse_number(part, 10, 0xFFFF_FFFF) {
                Some(n) => {
                    push_scalar(&mut out, n);
                },
                None => {
                    if literal {
                        extend(&mut out, part);
                    } else {
                        assert(out@ + Seq::<char>::empty() =~= out@);
                    }
                },
            }
        }
        k += 1;
    }
    out
}

} // verus!
