//! Normalisation of display names and locations into topic-safe identifiers.
use vstd::prelude::*;
use vstd::string::*;

verus! {

/// What `str::to_lowercase` returns for the given characters.
pub uninterp spec fn lower_of(s: Seq<char>) -> Seq<char>;

/// Relies on `str::to_lowercase`: the result depends on the characters alone.
#[verifier::external_body]
fn lowercase(s: &str) -> (r: String)
    ensures
        r@ == lower_of(s@),
{
    s.to_lowercase()
}

/// Relies on `String::push`: appends one character.
#[verifier::external_body]
pub(crate) fn push_char(s: &mut String, c: char)
    ensures
        final(s)@ == old(s)@.push(c),
{
    s.push(c)
}

/// A character that normalisation removes or rewrites.
pub open spec fn is_separator(c: char) -> bool {
    c == ':' || c == '-' || c == ' '
}

/// Drops every `:` and turns every `-` and space into `_`.
pub open spec fn clean_chars(s: Seq<char>) -> Seq<char>
    decreases s.len(),
{
    if s.len() == 0 {
        Seq::<char>::empty()
    } else {
        let rest = clean_chars(s.drop_last());
        let c = s.last();
        if c == ':' {
            rest
        } else if c == '-' || c == ' ' {
            rest.push('_')
        } else {
            rest.push(c)
        }
    }
}

/// The normalised form of a name: lowercased, then cleaned.
pub open spec fn normalized(s: Seq<char>) -> Seq<char> {
    clean_chars(lower_of(s))
}

/// Cleaning leaves no separator behind.
pub proof fn lemma_clean_has_no_separator(s: Seq<char>)
    ensures
        forall|i: int| 0 <= i < clean_chars(s).len() ==> !is_separator(#[trigger] clean_chars(s)[i]),
    decreases s.len(),
{
    if s.len() > 0 {
        let rest = clean_chars(s.drop_last());
        lemma_clean_has_no_separator(s.drop_last());
        let c = s.last();
        if c != ':' {
            let d = if c == '-' || c == ' ' { '_' } else { c };
            assert(clean_chars(s) == rest.push(d));
            assert forall|i: int| 0 <= i < rest.push(d).len() implies !is_separator(
                #[trigger] rest.push(d)[i],
            ) by {
                if i < rest.len() {
                    assert(rest.push(d)[i] == rest[i]);
                }
            }
        }
    }
}

/// Cleaning a text without separators changes nothing.
pub proof fn lemma_clean_fixes_plain(s: Seq<char>)
    requires
        forall|i: int| 0 <= i < s.len() ==> !is_separator(#[trigger] s[i]),
    ensures
        clean_chars(s) == s,
    decreases s.len(),
{
    if s.len() > 0 {
        let p = s.drop_last();
        assert forall|i: int| 0 <= i < p.len() implies !is_separator(#[trigger] p[i]) by {
            assert(p[i] == s[i]);
        }
        lemma_clean_fixes_plain(p);
        assert(!is_separator(s[s.len() - 1]));
        assert(p.push(s.last()) =~= s);
    }
}

/// Cleaning is idempotent.
pub proof fn lemma_clean_idempotent(s: Seq<char>)
    ensures
        clean_chars(clean_chars(s)) == clean_chars(s),
{
    lemma_clean_has_no_separator(s);
    lemma_clean_fixes_plain(clean_chars(s));
}

/// Normalising twice gives the normalised form, for every name whose
/// normalised form lowercasing leaves as it is.
pub proof fn lemma_normalize_idempotent(s: Seq<char>)
    requires
        lower_of(normalized(s)) == normalized(s),
    ensures
        normalized(normalized(s)) == normalized(s),
{
    lemma_clean_idempotent(lower_of(s));
}

/// The cleaning step alone: drops every `:` and turns every `-` and space
/// into `_`, leaving all other characters as they are.
pub fn clean_lowered(s: &str) -> (r: String)
    ensures
        r@ == clean_chars(s@),
{
    let n = s.unicode_len();
    let mut out = String::new();
    let mut i: usize = 0;
    while i < n
        invariant
            n == s@.len(),
            i <= n,
            out@ == clean_chars(s@.subrange(0, i as int)),
        decreases n - i,
    {
        let c = s.get_char(i);
        proof {
            let t = s@.subrange(0, i as int + 1);
            assert(t.drop_last() =~= s@.subrange(0, i as int));
            assert(t.last() == c);
        }
        if c == ':' {
        } else if c == '-' || c == ' ' {
            push_char(&mut out, '_');
        } else {
            push_char(&mut out, c);
        }
        i = i + 1;
    }
    assert(s@.subrange(0, n as int) =~= s@);
    out
}

/// Normalises a location or display name for use in topics and ids:
/// lowercase, strip `:`, replace `-` and spaces with `_`.
pub fn clean_name(s: &str) -> (r: String)
    ensures
        r@ == normalized(s@),
{
    let lowered = lowercase(s);
    clean_lowered(lowered.as_str())
}

/// Same as [`clean_name`].
pub fn normalize(s: &str) -> (r: String)
    ensures
        r@ == normalized(s@),
{
    clean_name(s)
}

} // verus!
