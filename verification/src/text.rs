//! String operations of std that the configuration logic relies on, with
//! their documented behaviour as contracts.

use vstd::prelude::*;
use vstd::string::*;

verus! {

/// Whether `c` has the Unicode `White_Space` property (PropList.txt), which is
/// what `char::is_whitespace` and `str::trim` go by: tab, line feed, vertical
/// tab, form feed, carriage return, space, next line, no-break space, ogham
/// space mark, the spaces from en quad to hair space, line and paragraph
/// separator, narrow no-break space, medium mathematical space and ideographic
/// space.
pub open spec fn is_white_space(c: char) -> bool {
    let u = c as u32;
    ||| 0x09 <= u <= 0x0D
    ||| u == 0x20
    ||| u == 0x85
    ||| u == 0xA0
    ||| u == 0x1680
    ||| 0x2000 <= u <= 0x200A
    ||| u == 0x2028
    ||| u == 0x2029
    ||| u == 0x202F
    ||| u == 0x205F
    ||| u == 0x3000
}

/// What `str::to_lowercase` returns for a string: its Unicode lowercase
/// mapping.
pub uninterp spec fn lowercase(s: Seq<char>) -> Seq<char>;

/// `r` is `s` with leading and trailing Unicode white space removed: a
/// contiguous part of `s`, everything outside it is white space, and it
/// neither starts nor ends with white space.
pub open spec fn is_trim_of(s: Seq<char>, r: Seq<char>) -> bool {
    exists|a: int, b: int|
        #![trigger s.subrange(a, b)]
        {
            &&& 0 <= a <= b <= s.len()
            &&& r == s.subrange(a, b)
            &&& forall|i: int| 0 <= i < a ==> is_white_space(#[trigger] s[i])
            &&& forall|i: int| b <= i < s.len() ==> is_white_space(#[trigger] s[i])
            &&& a < b ==> !is_white_space(s[a]) && !is_white_space(s[b - 1])
        }
}

/// Calls `str::trim`. Its documentation: the string slice with leading and
/// trailing white space removed, white space being the Unicode `White_Space`
/// property. The contract states exactly that, with the property spelled out in [`is_white_space`].
#[verifier::external_body]
pub fn trim(s: &str) -> (r: &str)
    ensures
        exists|a: int, b: int|
            #![trigger s@.subrange(a, b)]
            {
                &&& 0 <= a <= b <= s@.len()
                &&& r@ == s@.subrange(a, b)
                &&& forall|i: int| 0 <= i < a ==> is_white_space(#[trigger] s@[i])
                &&& forall|i: int| b <= i < s@.len() ==> is_white_space(#[trigger] s@[i])
                &&& a < b ==> !is_white_space(s@[a]) && !is_white_space(s@[b - 1])
            },
{
    s.trim()
}

/// Calls `str::to_lowercase`, whose result is named by [`lowercase`]: the full
/// Unicode lowercase mapping is tables long, and depends on the string alone.
#[verifier::external_body]
pub fn to_lowercase(s: &str) -> (r: String)
    ensures
        r@ == lowercase(s@),
{
    s.to_lowercase()
}

/// A trimmed string is empty exactly when every character of the original is
/// white space.
pub proof fn lemma_trim_empty(s: Seq<char>, r: Seq<char>)
    requires
        is_trim_of(s, r),
    ensures
        r.len() == 0 <==> forall|i: int| 0 <= i < s.len() ==> is_white_space(#[trigger] s[i]),
{
    let (a, b) = choose|a: int, b: int|
        {
            &&& 0 <= a <= b <= s.len()
            &&& r == s.subrange(a, b)
            &&& forall|i: int| 0 <= i < a ==> is_white_space(#[trigger] s[i])
            &&& forall|i: int| b <= i < s.len() ==> is_white_space(#[trigger] s[i])
            &&& a < b ==> !is_white_space(s[a]) && !is_white_space(s[b - 1])
        };
    if r.len() == 0 {
        assert forall|i: int| 0 <= i < s.len() implies is_white_space(#[trigger] s[i]) by {
            if i < a {
            } else {
                assert(b <= i);
            }
        }
    } else {
        assert(!is_white_space(s[a]));
    }
}

/// Whether `s` holds exactly the characters of the literal `lit`.
pub fn string_is(s: &String, lit: &str) -> (r: bool)
    ensures
        r == (s@ == lit@),
{
    *s == String::from_str(lit)
}

/// The trimmed string is part of the original, keeps the order of its
/// characters, and starts and ends with a character that is no white space;
/// and there is only one.
pub proof fn law_trim_result(s: Seq<char>, r: Seq<char>, r2: Seq<char>)
    requires
        is_trim_of(s, r),
        is_trim_of(s, r2),
    ensures
        r.len() <= s.len(),
        r.len() > 0 ==> !is_white_space(r[0]) && !is_white_space(r[r.len() - 1]),
        r == r2,
{
    let (a, b) = choose|a: int, b: int|
        {
            &&& 0 <= a <= b <= s.len()
            &&& r == s.subrange(a, b)
            &&& forall|i: int| 0 <= i < a ==> is_white_space(#[trigger] s[i])
            &&& forall|i: int| b <= i < s.len() ==> is_white_space(#[trigger] s[i])
            &&& a < b ==> !is_white_space(s[a]) && !is_white_space(s[b - 1])
        };
    let (a2, b2) = choose|a: int, b: int|
        {
            &&& 0 <= a <= b <= s.len()
            &&& r2 == s.subrange(a, b)
            &&& forall|i: int| 0 <= i < a ==> is_white_space(#[trigger] s[i])
            &&& forall|i: int| b <= i < s.len() ==> is_white_space(#[trigger] s[i])
            &&& a < b ==> !is_white_space(s[a]) && !is_white_space(s[b - 1])
        };
    lemma_trim_empty(s, r);
    lemma_trim_empty(s, r2);
    if a < b && a2 < b2 {
        if a < a2 {
            assert(is_white_space(s[a]));
        }
        if a2 < a {
            assert(is_white_space(s[a2]));
        }
        if b < b2 {
            assert(is_white_space(s[b2 - 1]));
        }
        if b2 < b {
            assert(is_white_space(s[b - 1]));
        }
        assert(r =~= r2);
    } else if a < b {
        assert(!is_white_space(s[a]));
    } else if a2 < b2 {
        assert(!is_white_space(s[a2]));
    } else {
        assert(r =~= r2);
    }
}

} // verus!
