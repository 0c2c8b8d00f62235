use vstd::prelude::*;

use crate::anchor::{convert_anchor, normalized};
use crate::text::{chars_of, string_of};

verus! {

/// Unicode white space, as `char::is_whitespace` and `str::trim` see it.
pub open spec fn is_whitespace(c: char) -> bool {
    let u = c as u32;
    (0x9 <= u && u <= 0xd) || u == 0x20 || u == 0x85 || u == 0xa0 || u == 0x1680 || (0x2000
        <= u && u <= 0x200a) || u == 0x2028 || u == 0x2029 || u == 0x202f || u == 0x205f || u
        == 0x3000
}

/// `x` without its leading white space.
pub open spec fn trim_start(x: Seq<char>) -> Seq<char>
    decreases x.len(),
{
    if x.len() > 0 && is_whitespace(x[0]) {
        trim_start(x.drop_first())
    } else {
        x
    }
}

/// `x` without its trailing white space.
pub open spec fn trim_end(x: Seq<char>) -> Seq<char>
    decreases x.len(),
{
    if x.len() > 0 && is_whitespace(x.last()) {
        trim_end(x.drop_last())
    } else {
        x
    }
}

/// `x` without its leading and trailing white space.
pub open spec fn trimmed(x: Seq<char>) -> Seq<char> {
    trim_end(trim_start(x))
}

/// A character that may stand in a link's target or section.
pub open spec fn is_name_char(c: char) -> bool {
    c != '#' && c != '|' && c != ']'
}

/// A character that may stand in a link's display text.
pub open spec fn is_text_char(c: char) -> bool {
    c != ']'
}

/// Where the run of name characters that starts at `i` ends.
pub open spec fn name_run_end(s: Seq<char>, i: int) -> int
    decreases s.len() - i,
{
    if 0 <= i < s.len() && is_name_char(s[i]) {
        name_run_end(s, i + 1)
    } else {
        i
    }
}

/// Where the run of display-text characters that starts at `i` ends.
pub open spec fn text_run_end(s: Seq<char>, i: int) -> int
    decreases s.len() - i,
{
    if 0 <= i < s.len() && is_text_char(s[i]) {
        text_run_end(s, i + 1)
    } else {
        i
    }
}

/// For a marker opening at `i` (`[[`): where its target ends.
pub open spec fn target_end(s: Seq<char>, i: int) -> int {
    name_run_end(s, i + 2)
}

/// The target is followed by `#` and a non-empty section.
pub open spec fn has_section(s: Seq<char>, i: int) -> bool {
    let t = target_end(s, i);
    t < s.len() && s[t] == '#' && name_run_end(s, t + 1) > t + 1
}

/// Where the target, with its section if there is one, ends.
pub open spec fn section_end(s: Seq<char>, i: int) -> int {
    if has_section(s, i) {
        name_run_end(s, target_end(s, i) + 1)
    } else {
        target_end(s, i)
    }
}

/// The section (or the target) is followed by `|`, a non-empty display text
/// and `]]`.
pub open spec fn has_text(s: Seq<char>, i: int) -> bool {
    let a = section_end(s, i);
    let d = text_run_end(s, a + 1);
    0 <= a < s.len() && s[a] == '|' && d > a + 1 && d + 1 < s.len() && s[d + 1] == ']'
}

/// Where the marker's inner part ends, just before its closing `]]`.
pub open spec fn body_end(s: Seq<char>, i: int) -> int {
    if has_text(s, i) {
        text_run_end(s, section_end(s, i) + 1)
    } else {
        section_end(s, i)
    }
}

/// A link marker `[[target]]`, `[[target#section]]`, `[[target|text]]` or
/// `[[target#section|text]]` starts at `i`; its target holds more than white
/// space.
pub open spec fn link_at(s: Seq<char>, i: int) -> bool {
    &&& 0 <= i
    &&& i + 1 < s.len()
    &&& s[i] == '['
    &&& s[i + 1] == '['
    &&& trimmed(s.subrange(i + 2, target_end(s, i))).len() > 0
    &&& 0 <= body_end(s, i)
    &&& body_end(s, i) + 1 < s.len()
    &&& s[body_end(s, i)] == ']'
    &&& s[body_end(s, i) + 1] == ']'
}

/// Just past the closing `]]` of the marker that starts at `i`.
pub open spec fn link_end(s: Seq<char>, i: int) -> int {
    body_end(s, i) + 2
}

/// The marker's target, trimmed.
pub open spec fn link_target(s: Seq<char>, i: int) -> Seq<char> {
    trimmed(s.subrange(i + 2, target_end(s, i)))
}

/// The marker's raw section label, trimmed.
pub open spec fn link_section(s: Seq<char>, i: int) -> Seq<char> {
    trimmed(s.subrange(target_end(s, i) + 1, section_end(s, i)))
}

/// The marker's explicit display text, trimmed.
pub open spec fn link_text(s: Seq<char>, i: int) -> Seq<char> {
    trimmed(s.subrange(section_end(s, i) + 1, body_end(s, i)))
}

/// The display text: the explicit one, else the target.
pub open spec fn link_display(s: Seq<char>, i: int) -> Seq<char> {
    if has_text(s, i) {
        link_text(s, i)
    } else {
        link_target(s, i)
    }
}

/// `#` and the normalized section, or nothing.
pub open spec fn link_anchor(s: Seq<char>, i: int) -> Seq<char> {
    if has_section(s, i) {
        seq!['#'] + normalized(link_section(s, i))
    } else {
        Seq::empty()
    }
}

/// The Markdown link `[display](target.md#anchor)` that replaces the marker at `i`.
pub open spec fn replacement(s: Seq<char>, i: int) -> Seq<char> {
    seq!['['] + link_display(s, i) + seq![']', '('] + link_target(s, i) + seq!['.', 'm', 'd']
        + link_anchor(s, i) + seq![')']
}

/// The rewriting of `s` from position `i` on: markers are taken left to right,
/// without overlap, and all other characters are kept.
pub open spec fn rewritten_from(s: Seq<char>, i: int) -> Seq<char>
    decreases s.len() - i,
    via rewritten_from_decreases
{
    if i < 0 || i >= s.len() {
        Seq::empty()
    } else if link_at(s, i) {
        replacement(s, i) + rewritten_from(s, link_end(s, i))
    } else {
        seq![s[i]] + rewritten_from(s, i + 1)
    }
}

#[via_fn]
proof fn rewritten_from_decreases(s: Seq<char>, i: int) {
    if 0 <= i < s.len() && link_at(s, i) {
        lemma_body_after_target(s, i);
    }
}

/// The rewriting of a whole text.
pub open spec fn rewritten(s: Seq<char>) -> Seq<char> {
    rewritten_from(s, 0)
}

proof fn lemma_name_run(s: Seq<char>, i: int)
    requires
        0 <= i,
    ensures
        i <= name_run_end(s, i),
        i <= s.len() ==> name_run_end(s, i) <= s.len(),
        forall|k: int| i <= k < name_run_end(s, i) ==> is_name_char(#[trigger] s[k]),
        name_run_end(s, i) < s.len() ==> !is_name_char(s[name_run_end(s, i)]),
    decreases s.len() - i,
{
    if 0 <= i < s.len() && is_name_char(s[i]) {
        lemma_name_run(s, i + 1);
    }
}

proof fn lemma_text_run(s: Seq<char>, i: int)
    requires
        0 <= i,
    ensures
        i <= text_run_end(s, i),
        i <= s.len() ==> text_run_end(s, i) <= s.len(),
        forall|k: int| i <= k < text_run_end(s, i) ==> is_text_char(#[trigger] s[k]),
        text_run_end(s, i) < s.len() ==> !is_text_char(s[text_run_end(s, i)]),
    decreases s.len() - i,
{
    if 0 <= i < s.len() && is_text_char(s[i]) {
        lemma_text_run(s, i + 1);
    }
}

proof fn lemma_body_after_target(s: Seq<char>, i: int)
    requires
        0 <= i,
    ensures
        i + 2 <= target_end(s, i) <= section_end(s, i) <= body_end(s, i),
{
    lemma_name_run(s, i + 2);
    lemma_name_run(s, target_end(s, i) + 1);
    lemma_text_run(s, section_end(s, i) + 1);
}

proof fn lemma_unmarked_from(s: Seq<char>, i: int)
    requires
        0 <= i <= s.len(),
        forall|k: int| !link_at(s, k),
    ensures
        rewritten_from(s, i) == s.subrange(i, s.len() as int),
    decreases s.len() - i,
{
    if i < s.len() {
        lemma_unmarked_from(s, i + 1);
        assert(seq![s[i]] + s.subrange(i + 1, s.len() as int) =~= s.subrange(i, s.len() as int));
    } else {
        assert(s.subrange(i, s.len() as int) =~= Seq::<char>::empty());
    }
}

/// A text in which no link marker starts anywhere is left exactly as it is.
pub proof fn lemma_unmarked_text_kept(s: Seq<char>)
    requires
        forall|k: int| !link_at(s, k),
    ensures
        rewritten(s) == s,
{
    lemma_unmarked_from(s, 0);
    assert(s.subrange(0, s.len() as int) =~= s);
}

fn is_whitespace_char(c: char) -> (r: bool)
    ensures
        r == is_whitespace(c),
{
    let u = c as u32;
    (0x9 <= u && u <= 0xd) || u == 0x20 || u == 0x85 || u == 0xa0 || u == 0x1680 || (0x2000
        <= u && u <= 0x200a) || u == 0x2028 || u == 0x2029 || u == 0x202f || u == 0x205f || u
        == 0x3000
}

/// The bounds of `s[lo..hi]` without its leading and trailing white space.
fn trim_range(s: &Vec<char>, lo: usize, hi: usize) -> (r: (usize, usize))
    requires
        lo <= hi <= s@.len(),
    ensures
        lo <= r.0 <= r.1 <= hi,
        s@.subrange(r.0 as int, r.1 as int) == trimmed(s@.subrange(lo as int, hi as int)),
{
    let mut a: usize = lo;
    while a < hi && is_whitespace_char(s[a])
        invariant
            lo <= a <= hi <= s@.len(),
            trim_start(s@.subrange(lo as int, hi as int)) == trim_start(
                s@.subrange(a as int, hi as int),
            ),
        decreases hi - a,
    {
        assert(s@.subrange(a as int, hi as int).drop_first() =~= s@.subrange(
            a + 1,
            hi as int,
        ));
        a = a + 1;
    }
    let mut b: usize = hi;
    while b > a && is_whitespace_char(s[b - 1])
        invariant
            lo <= a <= b <= hi <= s@.len(),
            trim_start(s@.subrange(lo as int, hi as int)) == s@.subrange(a as int, hi as int),
            trim_end(s@.subrange(a as int, hi as int)) == trim_end(
                s@.subrange(a as int, b as int),
            ),
        decreases b - a,
    {
        assert(s@.subrange(a as int, b as int).drop_last() =~= s@.subrange(
            a as int,
            b - 1,
        ));
        b = b - 1;
    }
    (a, b)
}

fn name_run_end_at(s: &Vec<char>, i: usize) -> (r: usize)
    requires
        i <= s@.len(),
    ensures
        r == name_run_end(s@, i as int),
        i <= r <= s@.len(),
{
    let mut j: usize = i;
    while j < s.len() && s[j] != '#' && s[j] != '|' && s[j] != ']'
        invariant
            i <= j <= s@.len(),
            name_run_end(s@, j as int) == name_run_end(s@, i as int),
        decreases s@.len() - j,
    {
        j = j + 1;
    }
    j
}

fn text_run_end_at(s: &Vec<char>, i: usize) -> (r: usize)
    requires
        i <= s@.len(),
    ensures
        r == text_run_end(s@, i as int),
        i <= r <= s@.len(),
{
    let mut j: usize = i;
    while j < s.len() && s[j] != ']'
        invariant
            i <= j <= s@.len(),
            text_run_end(s@, j as int) == text_run_end(s@, i as int),
        decreases s@.len() - j,
    {
        j = j + 1;
    }
    j
}

/// The positions of a marker found in a text.
struct Marker {
    target_end: usize,
    section_end: usize,
    body_end: usize,
    has_section: bool,
    has_text: bool,
}

impl Marker {
    spec fn describes(self, s: Seq<char>, i: int) -> bool {
        &&& self.target_end == target_end(s, i)
        &&& self.section_end == section_end(s, i)
        &&& self.body_end == body_end(s, i)
        &&& self.has_section == has_section(s, i)
        &&& self.has_text == has_text(s, i)
    }
}

/// Recognizes the marker that starts at `i`, if one does.
fn scan_link(s: &Vec<char>, i: usize) -> (r: Option<Marker>)
    requires
        i < s@.len(),
    ensures
        r is Some <==> link_at(s@, i as int),
        r matches Some(m) ==> m.describes(s@, i as int),
{
    if i >= s.len() - 1 || s[i] != '[' || s[i + 1] != '[' {
        return None;
    }
    let t = name_run_end_at(s, i + 2);
    let (t0, t1) = trim_range(s, i + 2, t);
    if t0 == t1 {
        return None;
    }
    let mut a = t;
    let mut has_section = false;
    if t < s.len() && s[t] == '#' {
        let e = name_run_end_at(s, t + 1);
        if e > t + 1 {
            a = e;
            has_section = true;
        }
    }
    let mut b = a;
    let mut has_text = false;
    if a < s.len() && s[a] == '|' {
        let d = text_run_end_at(s, a + 1);
        if d > a + 1 && d < s.len() - 1 && s[d + 1] == ']' {
            b = d;
            has_text = true;
        }
    }
    if b < s.len() - 1 && s[b] == ']' && s[b + 1] == ']' {
        Some(Marker { target_end: t, section_end: a, body_end: b, has_section, has_text })
    } else {
        None
    }
}

/// Appends `s[lo..hi]` to `out`.
fn push_range(out: &mut Vec<char>, s: &Vec<char>, lo: usize, hi: usize)
    requires
        lo <= hi <= s@.len(),
    ensures
        final(out)@ == old(out)@ + s@.subrange(lo as int, hi as int),
{
    let mut k: usize = lo;
    while k < hi
        invariant
            lo <= k <= hi <= s@.len(),
            out@ == old(out)@ + s@.subrange(lo as int, k as int),
        decreases hi - k,
    {
        out.push(s[k]);
        k = k + 1;
        assert(out@ =~= old(out)@ + s@.subrange(lo as int, k as int));
    }
}

fn push_target(out: &mut Vec<char>, s: &Vec<char>, i: usize, m: &Marker)
    requires
        link_at(s@, i as int),
        m.describes(s@, i as int),
    ensures
        final(out)@ == old(out)@ + link_target(s@, i as int),
{
    proof {
        lemma_body_after_target(s@, i as int);
    }
    let (t0, t1) = trim_range(s, i + 2, m.target_end);
    push_range(out, s, t0, t1);
}

fn push_display(out: &mut Vec<char>, s: &Vec<char>, i: usize, m: &Marker)
    requires
        link_at(s@, i as int),
        m.describes(s@, i as int),
    ensures
        final(out)@ == old(out)@ + link_display(s@, i as int),
{
    proof {
        lemma_body_after_target(s@, i as int);
    }
    if m.has_text {
        let (d0, d1) = trim_range(s, m.section_end + 1, m.body_end);
        push_range(out, s, d0, d1);
    } else {
        push_target(out, s, i, m);
    }
}

fn push_anchor(out: &mut Vec<char>, s: &Vec<char>, i: usize, m: &Marker)
    requires
        link_at(s@, i as int),
        m.describes(s@, i as int),
    ensures
        final(out)@ == old(out)@ + link_anchor(s@, i as int),
{
    proof {
        lemma_body_after_target(s@, i as int);
    }
    if m.has_section {
        out.push('#');
        let (a0, a1) = trim_range(s, m.target_end + 1, m.section_end);
        let mut section: Vec<char> = Vec::new();
        push_range(&mut section, s, a0, a1);
        let label = string_of(&section);
        let anchor = convert_anchor(label.as_str());
        let anchor_chars = chars_of(anchor.as_str());
        push_range(out, &anchor_chars, 0, anchor_chars.len());
        assert(anchor_chars@.subrange(0, anchor_chars@.len() as int) =~= anchor_chars@);
        assert(section@ =~= link_section(s@, i as int));
        assert(out@ =~= old(out)@ + link_anchor(s@, i as int));
    } else {
        assert(out@ =~= old(out)@ + link_anchor(s@, i as int));
    }
}

/// Appends the Markdown link that replaces the marker at `i`.
fn push_replacement(out: &mut Vec<char>, s: &Vec<char>, i: usize, m: &Marker)
    requires
        link_at(s@, i as int),
        m.describes(s@, i as int),
    ensures
        final(out)@ == old(out)@ + replacement(s@, i as int),
{
    out.push('[');
    push_display(out, s, i, m);
    out.push(']');
    out.push('(');
    push_target(out, s, i, m);
    out.push('.');
    out.push('m');
    out.push('d');
    push_anchor(out, s, i, m);
    out.push(')');
    assert(out@ =~= old(out)@ + replacement(s@, i as int));
}

/// Rewrites every link marker of `content` into a Markdown link, left to right
/// and without overlap; all text outside the markers is kept as it is.
pub fn convert_obsidian_links(content: &str) -> (r: String)
    ensures
        r@ == rewritten(content@),
{
    let s = chars_of(content);
    let mut out: Vec<char> = Vec::new();
    let mut i: usize = 0;
    while i < s.len()
        invariant
            s@ == content@,
            i <= s@.len(),
            out@ + rewritten_from(s@, i as int) == rewritten_from(s@, 0),
        decreases s@.len() - i,
    {
        let ghost before = out@;
        let ghost at = i as int;
        match scan_link(&s, i) {
            Some(m) => {
                proof {
                    lemma_body_after_target(s@, i as int);
                }
                push_replacement(&mut out, &s, i, &m);
                i = m.body_end + 2;
                assert(out@ + rewritten_from(s@, i as int) =~= before + rewritten_from(s@, at));
            },
            None => {
                out.push(s[i]);
                i = i + 1;
                assert(out@ + rewritten_from(s@, i as int) =~= before + rewritten_from(s@, at));
            },
        }
    }
    string_of(&out)
}

} // verus!
