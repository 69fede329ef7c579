//! Building the sentences the library reports: decimal numbers, lists joined by a separator, and comparisons
//! of names.

use vstd::prelude::*;

verus! {

/// The character of the decimal digit `d`.
pub open spec fn digit_char(d: nat) -> char {
    (48 + d) as char
}

/// `n` written in decimal, without leading zeros.
pub open spec fn decimal(n: nat) -> Seq<char>
    decreases n,
{
    if n < 10 {
        seq![digit_char(n)]
    } else {
        decimal(n / 10).push(digit_char(n % 10))
    }
}

/// The names of a list, joined by `sep`.
pub open spec fn join(names: Seq<Seq<char>>, sep: Seq<char>) -> Seq<char>
    decreases names.len(),
{
    if names.len() == 0 {
        Seq::empty()
    } else if names.len() == 1 {
        names[0]
    } else {
        join(names.drop_last(), sep) + sep + names.last()
    }
}

/// The views of a list of string slices.
pub open spec fn strs(v: Seq<&str>) -> Seq<Seq<char>> {
    v.map_values(|s: &str| s@)
}

/// The views of a list of strings.
pub open spec fn strings(v: Seq<String>) -> Seq<Seq<char>> {
    v.map_values(|s: String| s@)
}

/// The views of a list with one more string are the views of the list with one more view.
pub proof fn lemma_strings_push(v: Seq<String>, s: String)
    ensures
        strings(v.push(s)) == strings(v).push(s@),
{
    assert(strings(v.push(s)) =~= strings(v).push(s@));
}

fn digit(d: usize) -> (s: &'static str)
    requires
        d < 10,
    ensures
        s@ == seq![digit_char(d as nat)],
{
    proof {
        reveal_strlit("0");
        reveal_strlit("1");
        reveal_strlit("2");
        reveal_strlit("3");
        reveal_strlit("4");
        reveal_strlit("5");
        reveal_strlit("6");
        reveal_strlit("7");
        reveal_strlit("8");
        reveal_strlit("9");
    }
    match d {
        0 => "0",
        1 => "1",
        2 => "2",
        3 => "3",
        4 => "4",
        5 => "5",
        6 => "6",
        7 => "7",
        8 => "8",
        _ => "9",
    }
}

/// `n` in decimal.
pub fn decimal_string(n: usize) -> (s: String)
    ensures
        s@ == decimal(n as nat),
    decreases n,
{
    if n < 10 {
        String::from_str(digit(n))
    } else {
        let mut s = decimal_string(n / 10);
        s.append(digit(n % 10));
        s
    }
}

/// Whether two string slices hold the same characters.
pub fn str_eq(a: &str, b: &str) -> (r: bool)
    ensures
        r == (a@ == b@),
{
    let n = a.unicode_len();
    if n != b.unicode_len() {
        return false;
    }
    let mut i: usize = 0;
    while i < n
        invariant
            n == a@.len(),
            n == b@.len(),
            i <= n,
            forall|k: int| 0 <= k < i ==> a@[k] == b@[k],
        decreases n - i,
    {
        if a.get_char(i) != b.get_char(i) {
            return false;
        }
        i = i + 1;
    }
    assert(a@ =~= b@);
    true
}

/// Whether `s` is one of `list`.
pub fn contains_str(list: &[&str], s: &str) -> (r: bool)
    ensures
        r == strs(list@).contains(s@),
{
    let mut i: usize = 0;
    while i < list.len()
        invariant
            i <= list@.len(),
            forall|k: int| 0 <= k < i ==> list@[k]@ != s@,
        decreases list.len() - i,
    {
        if str_eq(list[i], s) {
            assert(strs(list@)[i as int] == s@);
            return true;
        }
        i = i + 1;
    }
    assert forall|k: int| 0 <= k < strs(list@).len() implies strs(list@)[k] != s@ by {
        assert(strs(list@)[k] == list@[k]@);
    }
    false
}

/// The entries of `list` joined by `sep`.
pub fn join_strs(list: &[&str], sep: &str) -> (r: String)
    ensures
        r@ == join(strs(list@), sep@),
{
    let mut out = String::new();
    let mut i: usize = 0;
    while i < list.len()
        invariant
            i <= list@.len(),
            out@ == join(strs(list@).take(i as int), sep@),
        decreases list.len() - i,
    {
        let ghost before = strs(list@).take(i as int);
        let ghost after = strs(list@).take(i + 1);
        assert(after.drop_last() =~= before);
        assert(after.last() == list@[i as int]@);
        if i > 0 {
            out.append(sep);
        }
        out.append(list[i]);
        proof {
            if i == 0 {
                assert(out@ =~= after[0]);
            }
        }
        i = i + 1;
    }
    assert(strs(list@).take(list@.len() as int) =~= strs(list@));
    out
}

/// Whether `s` is one of `list`.
pub fn contains_string(list: &Vec<String>, s: &str) -> (r: bool)
    ensures
        r == strings(list@).contains(s@),
{
    let mut i: usize = 0;
    while i < list.len()
        invariant
            i <= list@.len(),
            forall|k: int| 0 <= k < i ==> list@[k]@ != s@,
        decreases list.len() - i,
    {
        if str_eq(list[i].as_str(), s) {
            assert(strings(list@)[i as int] == s@);
            return true;
        }
        i = i + 1;
    }
    assert forall|k: int| 0 <= k < strings(list@).len() implies strings(list@)[k] != s@ by {
        assert(strings(list@)[k] == list@[k]@);
    }
    false
}

/// The entries of `list` joined by `sep`.
pub fn join_strings(list: &Vec<String>, sep: &str) -> (r: String)
    ensures
        r@ == join(strings(list@), sep@),
{
    let mut out = String::new();
    let mut i: usize = 0;
    while i < list.len()
        invariant
            i <= list@.len(),
            out@ == join(strings(list@).take(i as int), sep@),
        decreases list.len() - i,
    {
        let ghost before = strings(list@).take(i as int);
        let ghost after = strings(list@).take(i + 1);
        assert(after.drop_last() =~= before);
        assert(after.last() == list@[i as int]@);
        if i > 0 {
            out.append(sep);
        }
        out.append(list[i].as_str());
        proof {
            if i == 0 {
                assert(out@ =~= after[0]);
            }
        }
        i = i + 1;
    }
    assert(strings(list@).take(list@.len() as int) =~= strings(list@));
    out
}

/// Whether every character of `s` is ASCII.
pub open spec fn is_ascii(s: Seq<char>) -> bool {
    forall|i: int| 0 <= i < s.len() ==> (#[trigger] s[i] as u32) < 128
}

/// The ASCII upper-case form of a character: `a` to `z` become `A` to `Z`, every other character stays.
pub open spec fn ascii_upper_char(c: char) -> char {
    if 'a' <= c && c <= 'z' {
        ((c as u32) - 32) as char
    } else {
        c
    }
}

/// The ASCII upper-case form of a string, character by character.
pub open spec fn ascii_upper(s: Seq<char>) -> Seq<char> {
    s.map_values(|c: char| ascii_upper_char(c))
}

/// What `str::to_uppercase` returns for a string: its Unicode uppercase mapping.
pub uninterp spec fn uppercase(s: Seq<char>) -> Seq<char>;

/// What `char::to_uppercase` yields for a character, collected: its Unicode uppercase mapping.
pub uninterp spec fn char_uppercase(c: char) -> Seq<char>;

/// The upper-case form of a string: for ASCII text the ASCII mapping, otherwise the Unicode mapping.
pub open spec fn upper_form(s: Seq<char>) -> Seq<char> {
    if is_ascii(s) {
        ascii_upper(s)
    } else {
        uppercase(s)
    }
}

/// The upper-case form of a character: for an ASCII character the ASCII mapping, otherwise the Unicode mapping.
pub open spec fn char_upper_form(c: char) -> Seq<char> {
    if (c as u32) < 128 {
        seq![ascii_upper_char(c)]
    } else {
        char_uppercase(c)
    }
}

/// Calls `str::to_uppercase`.  The contract names the result, and states it for ASCII text, where the Unicode
/// mapping is the ASCII one (`a` to `z` become `A` to `Z`, as `str::to_ascii_uppercase` does); beyond ASCII the
/// mapping is not written out here.
#[verifier::external_body]
pub(crate) fn to_uppercase(s: &str) -> (r: String)
    ensures
        r@ == uppercase(s@),
        is_ascii(s@) ==> r@ == ascii_upper(s@),
{
    s.to_uppercase()
}

/// Calls `char::to_uppercase` and collects what it yields.  The contract names the result, and states it for an
/// ASCII character, whose upper-case form is its ASCII one (as `char::to_ascii_uppercase` gives); beyond ASCII the
/// mapping is not written out here.
#[verifier::external_body]
pub(crate) fn char_to_uppercase(c: char) -> (r: String)
    ensures
        r@ == char_uppercase(c),
        (c as u32) < 128 ==> r@ == seq![ascii_upper_char(c)],
{
    c.to_uppercase().collect()
}

} // verus!
