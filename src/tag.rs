//! Deriving an element's tag from the name of its payload type.
use vstd::prelude::*;

verus! {

/// Why a tag could not be derived from a payload type name.
#[derive(Debug, Clone, Copy, PartialEq, Eq)]
pub enum TagError {
    /// Nothing is left of the name once the field list, trailing blanks and
    /// the `Props` suffix are taken away.
    EmptyTag,
}

/// The conventional suffix of payload type names.
pub open spec fn props_suffix() -> Seq<char> {
    seq!['P', 'r', 'o', 'p', 's']
}

/// How many characters come before the first `{` (all of them when there is none).
pub open spec fn brace_free_len(s: Seq<char>) -> nat
    decreases s.len(),
{
    if s.len() == 0 {
        0
    } else if s[0] == '{' {
        0
    } else {
        1 + brace_free_len(s.drop_first())
    }
}

/// `s` without its trailing blanks.
pub open spec fn trim_trailing_spaces(s: Seq<char>) -> Seq<char>
    decreases s.len(),
{
    if s.len() > 0 && s.last() == ' ' {
        trim_trailing_spaces(s.drop_last())
    } else {
        s
    }
}

/// The bare type name in a textual form such as `NameProps { show: true }`:
/// what stands before the first `{`, without trailing blanks.
pub open spec fn bare_name(s: Seq<char>) -> Seq<char> {
    trim_trailing_spaces(s.subrange(0, brace_free_len(s) as int))
}

pub open spec fn ends_with_props(s: Seq<char>) -> bool {
    s.len() >= 5 && s.subrange(s.len() - 5, s.len() as int) == props_suffix()
}

/// `s` with one trailing `Props` removed, if it has one.
pub open spec fn strip_props_suffix(s: Seq<char>) -> Seq<char> {
    if ends_with_props(s) {
        s.subrange(0, s.len() - 5)
    } else {
        s
    }
}

pub open spec fn is_ascii_upper(c: char) -> bool {
    65 <= (c as u32) && (c as u32) <= 90
}

/// ASCII lower-casing of one character; every other character is kept.
pub open spec fn ascii_lower(c: char) -> char {
    if is_ascii_upper(c) {
        ((c as u32) + 32) as char
    } else {
        c
    }
}

pub open spec fn lower_seq(s: Seq<char>) -> Seq<char> {
    s.map_values(|c: char| ascii_lower(c))
}

/// The tag of a payload type with textual form `s`.
pub open spec fn tag_from_name(s: Seq<char>) -> Seq<char> {
    lower_seq(strip_props_suffix(bare_name(s)))
}

proof fn lemma_brace_free_len(s: Seq<char>, k: int)
    requires
        0 <= k <= s.len(),
        forall|j: int| 0 <= j < k ==> s[j] != '{',
        k == s.len() || s[k] == '{',
    ensures
        brace_free_len(s) == k,
    decreases k,
{
    if k > 0 {
        let t = s.drop_first();
        assert forall|j: int| 0 <= j < k - 1 implies t[j] != '{' by {
            assert(t[j] == s[j + 1]);
        }
        if k < s.len() {
            assert(t[k - 1] == s[k]);
        }
        lemma_brace_free_len(t, k - 1);
    }
}

/// A type named `<stem>Props` gets the lower-cased stem as its tag.
pub proof fn lemma_tag_of_suffixed_name(stem: Seq<char>)
    requires
        forall|j: int| 0 <= j < stem.len() ==> stem[j] != '{',
    ensures
        tag_from_name(stem + props_suffix()) == lower_seq(stem),
{
    let s = stem + props_suffix();
    assert forall|j: int| 0 <= j < s.len() implies s[j] != '{' by {
        if j >= stem.len() {
            assert(s[j] == props_suffix()[j - stem.len()]);
        }
    }
    lemma_brace_free_len(s, s.len() as int);
    assert(s.subrange(0, s.len() as int) =~= s);
    assert(s.last() == 's');
    assert(trim_trailing_spaces(s) == s);
    assert(s.subrange(s.len() - 5, s.len() as int) =~= props_suffix());
    assert(s.subrange(0, s.len() - 5) =~= stem);
}

/// A type name without the `Props` suffix (and without a field list or
/// trailing blanks) is lower-cased whole.
pub proof fn lemma_tag_of_plain_name(name: Seq<char>)
    requires
        forall|j: int| 0 <= j < name.len() ==> name[j] != '{',
        name.len() == 0 || name.last() != ' ',
        !ends_with_props(name),
    ensures
        tag_from_name(name) == lower_seq(name),
{
    lemma_brace_free_len(name, name.len() as int);
    assert(name.subrange(0, name.len() as int) =~= name);
    assert(trim_trailing_spaces(name) == name);
}

fn ascii_lower_char(c: char) -> (r: char)
    ensures
        r == ascii_lower(c),
{
    if 'A' <= c && c <= 'Z' {
        ((c as u8) + 32) as char
    } else {
        c
    }
}

/// Relies on `String::push`: the character is appended at the end.
#[verifier::external_body]
pub(crate) fn push_char(s: &mut String, c: char)
    ensures
        final(s)@ == old(s)@.push(c),
{
    s.push(c)
}

/// Derives a tag from the textual form of a payload type (`TextProps`,
/// or `TextProps { text: "x" }`): the bare type name, without a trailing
/// `Props`, in lower case.
pub fn derive_tag(name: &str) -> (r: Result<String, TagError>)
    ensures
        match r {
            Ok(t) => t@ == tag_from_name(name@) && t@.len() > 0,
            Err(e) => e == TagError::EmptyTag && tag_from_name(name@).len() == 0,
        },
{
    let ghost s = name@;
    let n = name.unicode_len();
    let mut k: usize = 0;
    while k < n && name.get_char(k) != '{'
        invariant
            k <= n,
            n == s.len(),
            s == name@,
            forall|j: int| 0 <= j < k ==> s[j] != '{',
        decreases n - k,
    {
        k = k + 1;
    }
    proof {
        lemma_brace_free_len(s, k as int);
    }
    let mut e: usize = k;
    while e > 0 && name.get_char(e - 1) == ' '
        invariant
            e <= k,
            k <= n,
            n == s.len(),
            s == name@,
            trim_trailing_spaces(s.subrange(0, e as int)) == bare_name(s),
        decreases e,
    {
        assert(s.subrange(0, e as int).drop_last() =~= s.subrange(0, e - 1));
        e = e - 1;
    }
    let ghost bare = s.subrange(0, e as int);
    assert(trim_trailing_spaces(bare) == bare);
    let stem_end: usize = if e >= 5 && name.get_char(e - 5) == 'P' && name.get_char(e - 4)
        == 'r' && name.get_char(e - 3) == 'o' && name.get_char(e - 2) == 'p'
        && name.get_char(e - 1) == 's' {
        assert(bare.subrange(bare.len() - 5, bare.len() as int) =~= props_suffix());
        e - 5
    } else {
        assert(!ends_with_props(bare) || bare.subrange(bare.len() - 5, bare.len() as int)
            == props_suffix());
        e
    };
    assert(strip_props_suffix(bare) =~= s.subrange(0, stem_end as int));
    let mut out = String::new();
    let mut i: usize = 0;
    while i < stem_end
        invariant
            i <= stem_end,
            stem_end <= e,
            e <= n,
            n == s.len(),
            s == name@,
            out@ =~= lower_seq(s.subrange(0, i as int)),
        decreases stem_end - i,
    {
        let c = ascii_lower_char(name.get_char(i));
        push_char(&mut out, c);
        i = i + 1;
        assert(out@ =~= lower_seq(s.subrange(0, i as int)));
    }
    if stem_end == 0 {
        Err(TagError::EmptyTag)
    } else {
        Ok(out)
    }
}

} // verus!
