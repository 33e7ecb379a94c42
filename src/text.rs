use vstd::prelude::*;
use vstd::string::{StrSliceExecFns, StringExecFns};

use crate::schema::SchemaObject;

verus! {

/// The prefix that names a title in a help message: `<title> `, or nothing.
pub open spec fn title_prefix(title: Option<Seq<char>>) -> Seq<char> {
    match title {
        Some(t) => seq!['<'] + t + seq!['>', ' '],
        None => Seq::empty(),
    }
}

pub open spec fn opt_view(s: Option<String>) -> Option<Seq<char>> {
    match s {
        Some(t) => Some(t@),
        None => None,
    }
}

/// Renders an optional title as the prefix of a help message.
pub fn get_title_str(title: &Option<String>) -> (r: String)
    ensures
        r@ == title_prefix(opt_view(*title)),
{
    match title {
        Some(t) => {
            let mut s = String::from_str("<");
            s.append(t.as_str());
            s.append("> ");
            proof {
                reveal_strlit("<");
                reveal_strlit("> ");
                assert(s@ =~= title_prefix(opt_view(*title)));
            }
            s
        },
        None => String::new(),
    }
}


/// The longest description, in UTF-8 bytes, shown in full.
pub const DESCRIPTION_LIMIT: usize = 60;

/// The number of bytes that `c` takes in UTF-8.
pub open spec fn char_bytes(c: char) -> nat {
    if (c as u32) < 0x80 {
        1
    } else if (c as u32) < 0x800 {
        2
    } else if (c as u32) < 0x10000 {
        3
    } else {
        4
    }
}

/// How many leading characters of `s` fit in `budget` bytes of UTF-8.
pub open spec fn fit_count(s: Seq<char>, budget: nat) -> nat
    decreases s.len(),
{
    if s.len() == 0 {
        0
    } else if char_bytes(s[0]) <= budget {
        1 + fit_count(s.drop_first(), (budget - char_bytes(s[0])) as nat)
    } else {
        0
    }
}

/// A description as shown: whole when its UTF-8 form fits in
/// `DESCRIPTION_LIMIT` bytes, else its longest prefix of whole characters
/// within that many bytes, followed by `...`.
pub open spec fn shown_description(d: Seq<char>) -> Seq<char> {
    let k = fit_count(d, DESCRIPTION_LIMIT as nat);
    if k == d.len() {
        d
    } else {
        d.subrange(0, k as int) + seq!['.', '.', '.']
    }
}

/// How a description is shown after a field name: `: ` and the shown
/// description, or nothing.
pub open spec fn description_text(s: SchemaObject) -> Seq<char> {
    match s.metadata {
        Some(m) => match m.description {
            Some(d) => seq![':', ' '] + shown_description(d@),
            None => Seq::empty(),
        },
        None => Seq::empty(),
    }
}

fn utf8_width(c: char) -> (r: usize)
    ensures
        r as nat == char_bytes(c),
{
    let v = c as u32;
    if v < 0x80 {
        1
    } else if v < 0x800 {
        2
    } else if v < 0x10000 {
        3
    } else {
        4
    }
}

proof fn lemma_fit_step(s: Seq<char>, i: int, budget: nat)
    requires
        0 <= i < s.len(),
        char_bytes(s[i]) <= budget,
    ensures
        fit_count(s.subrange(i, s.len() as int), budget) == 1 + fit_count(
            s.subrange(i + 1, s.len() as int),
            (budget - char_bytes(s[i])) as nat,
        ),
{
    assert(s.subrange(i, s.len() as int).drop_first() =~= s.subrange(i + 1, s.len() as int));
}

/// Renders the description of a node for a help message.
pub fn get_description(schema: &SchemaObject) -> (r: String)
    ensures
        r@ == description_text(*schema),
{
    match &schema.metadata {
        Some(metadata) => match &metadata.description {
            Some(d) => {
                let mut out = String::from_str(": ");
                let text = d.as_str();
                let n = text.unicode_len();
                let mut i: usize = 0;
                let mut used: usize = 0;
                proof {
                    assert(d@.subrange(0, n as int) =~= d@);
                }
                while i < n && used + utf8_width(text.get_char(i)) <= DESCRIPTION_LIMIT
                    invariant
                        n == text@.len(),
                        text@ == d@,
                        i <= n,
                        used <= DESCRIPTION_LIMIT,
                        fit_count(d@, DESCRIPTION_LIMIT as nat) == i + fit_count(
                            d@.subrange(i as int, n as int),
                            (DESCRIPTION_LIMIT - used) as nat,
                        ),
                    decreases n - i,
                {
                    proof {
                        lemma_fit_step(d@, i as int, (DESCRIPTION_LIMIT - used) as nat);
                    }
                    used = used + utf8_width(text.get_char(i));
                    i = i + 1;
                }
                proof {
                    assert(d@.subrange(0, n as int) =~= d@);
                    if i < n {
                        assert(d@.subrange(i as int, n as int)[0] == d@[i as int]);
                    } else {
                        assert(d@.subrange(i as int, n as int).len() == 0);
                    }
                }
                if i == n {
                    out.append(text);
                } else {
                    out.append(text.substring_char(0, i));
                    out.append("...");
                }
                proof {
                    reveal_strlit(": ");
                    reveal_strlit("...");
                    assert(out@ =~= description_text(*schema));
                }
                out
            },
            None => String::new(),
        },
        None => String::new(),
    }
}

/// The decimal digits of `n`, most significant first.
pub open spec fn decimal(n: nat) -> Seq<char>
    decreases n,
{
    if n < 10 {
        seq![digit_char(n)]
    } else {
        decimal(n / 10) + seq![digit_char(n % 10)]
    }
}

pub open spec fn digit_char(d: nat) -> char {
    if d == 0 { '0' }
    else if d == 1 { '1' }
    else if d == 2 { '2' }
    else if d == 3 { '3' }
    else if d == 4 { '4' }
    else if d == 5 { '5' }
    else if d == 6 { '6' }
    else if d == 7 { '7' }
    else if d == 8 { '8' }
    else { '9' }
}

fn push_digit(out: &mut String, d: u64)
    requires
        d < 10,
    ensures
        final(out)@ == old(out)@ + seq![digit_char(d as nat)],
{
    let lit = if d == 0 { "0" }
        else if d == 1 { "1" }
        else if d == 2 { "2" }
        else if d == 3 { "3" }
        else if d == 4 { "4" }
        else if d == 5 { "5" }
        else if d == 6 { "6" }
        else if d == 7 { "7" }
        else if d == 8 { "8" }
        else { "9" };
    proof {
        reveal_strlit("0");
        reveal_strlit("1");
        reveal_strlit("2");
        reveal_strlit("3");
        reveal_strlit("4");
        reveal_strlit("5");
        reveal_strlit("6");
        reveal_strlit("7");
        reveal_strlit("8");
        reveal_strlit("9");
    }
    out.append(lit);
    proof {
        assert(final(out)@ =~= old(out)@ + seq![digit_char(d as nat)]);
    }
}

/// Appends the decimal digits of `n` to `out`.
pub fn push_decimal(out: &mut String, n: u64)
    ensures
        final(out)@ == old(out)@ + decimal(n as nat),
    decreases n,
{
    if n < 10 {
        push_digit(out, n);
    } else {
        push_decimal(out, n / 10);
        push_digit(out, n % 10);
        proof {
            assert(final(out)@ =~= old(out)@ + decimal(n as nat));
        }
    }
}

/// `a` followed by `b`.
pub fn concat(a: &str, b: &str) -> (r: String)
    ensures
        r@ == a@ + b@,
{
    let mut s = String::from_str(a);
    s.append(b);
    s
}

/// The name of the element at `index` of the array field `name`: `name[index]`
/// for arrays of one element schema, `name.index` for positional ones.
pub open spec fn element_name(name: Seq<char>, index: nat, positional: bool) -> Seq<char> {
    if positional {
        name + seq!['.'] + decimal(index)
    } else {
        name + seq!['['] + decimal(index) + seq![']']
    }
}

/// Builds the name of an array element.
pub fn get_element_name(name: &String, index: usize, positional: bool) -> (r: String)
    ensures
        r@ == element_name(name@, index as nat, positional),
{
    let mut s = name.clone();
    if positional {
        s.append(".");
        push_decimal(&mut s, index as u64);
        proof {
            reveal_strlit(".");
            assert(s@ =~= element_name(name@, index as nat, positional));
        }
    } else {
        s.append("[");
        push_decimal(&mut s, index as u64);
        s.append("]");
        proof {
            reveal_strlit("[");
            reveal_strlit("]");
            assert(s@ =~= element_name(name@, index as nat, positional));
        }
    }
    s
}

} // verus!
