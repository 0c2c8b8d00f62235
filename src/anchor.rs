use vstd::prelude::*;

verus! {

/// The lowercase form of `s` as `str::to_lowercase` computes it (the Unicode
/// lowercase mapping, with its rule for a final sigma, and no dependence on
/// locale).
pub uninterp spec fn lower_of(s: Seq<char>) -> Seq<char>;

/// Relies on `str::to_lowercase`: its result depends on the characters of `s` alone.
#[verifier::external_body]
fn lowercase(s: &str) -> (r: String)
    ensures
        r@ == lower_of(s@),
{
    s.to_lowercase()
}

/// The separators that an anchor folds into a hyphen.
pub open spec fn is_separator(c: char) -> bool {
    c == ' ' || c == '_'
}

/// `s` with every space and underscore replaced by a hyphen.
pub open spec fn hyphenated(s: Seq<char>) -> Seq<char> {
    Seq::new(s.len(), |i: int| if is_separator(s[i]) { '-' } else { s[i] })
}

/// Spaces and underscores are interchangeable: two lowered labels that agree
/// at every place but where each holds a space or an underscore give the same
/// anchor.
pub proof fn lemma_separators_interchangeable(a: Seq<char>, b: Seq<char>)
    requires
        a.len() == b.len(),
        forall|k: int|
            0 <= k < a.len() ==> (a[k] == b[k] || (is_separator(a[k]) && is_separator(b[k]))),
    ensures
        hyphenated(a) == hyphenated(b),
{
    assert(hyphenated(a) =~= hyphenated(b));
}

/// Replaces every space and underscore of `lowered` by a hyphen; all other
/// characters pass through.
pub fn hyphenate_separators(lowered: &str) -> (r: String)
    ensures
        r@ == hyphenated(lowered@),
{
    let chars = crate::text::chars_of(lowered);
    let mut out: Vec<char> = Vec::new();
    let mut i: usize = 0;
    while i < chars.len()
        invariant
            chars@ == lowered@,
            i <= chars@.len(),
            out@ == hyphenated(chars@.subrange(0, i as int)),
        decreases chars@.len() - i,
    {
        let c = chars[i];
        if c == ' ' || c == '_' {
            out.push('-');
        } else {
            out.push(c);
        }
        i = i + 1;
        assert(out@ =~= hyphenated(chars@.subrange(0, i as int)));
    }
    assert(chars@.subrange(0, chars@.len() as int) =~= chars@);
    crate::text::string_of(&out)
}

/// The section identifier for a raw section label: lowercased, then with every
/// space and underscore replaced by a hyphen.
pub open spec fn normalized(label: Seq<char>) -> Seq<char> {
    hyphenated(lower_of(label))
}

/// Normalizes a section label into an anchor (`"Test test"` becomes `"test-test"`).
pub fn convert_anchor(anchor: &str) -> (r: String)
    ensures
        r@ == normalized(anchor@),
{
    let lowered = lowercase(anchor);
    hyphenate_separators(lowered.as_str())
}

} // verus!
