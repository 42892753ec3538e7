//! Lines of output: what the program prints, and on which stream.

use vstd::prelude::*;
use vstd::string::StringExecFns;

use crate::text;
use crate::text::{debug_string, join, u64_text, usize_text};

verus! {

/// One line of output, without its line ending.
#[derive(Debug, Clone, PartialEq, Eq)]
pub enum Line {
    /// A line for standard output.
    Out(String),
    /// A line for standard error.
    Alert(String),
}

/// The text of a line and the stream that it goes to.
pub enum Shown {
    Out(Seq<char>),
    Alert(Seq<char>),
}

impl View for Line {
    type V = Shown;

    open spec fn view(&self) -> Shown {
        match self {
            Line::Out(s) => Shown::Out(s@),
            Line::Alert(s) => Shown::Alert(s@),
        }
    }
}

/// The views of a list of lines.
pub open spec fn shown(v: Seq<Line>) -> Seq<Shown> {
    v.map_values(|l: Line| l@)
}

/// Appends a line for standard output.
pub fn out(v: &mut Vec<Line>, s: &str)
    ensures
        shown(final(v)@) == shown(old(v)@).push(Shown::Out(s@)),
{
    v.push(Line::Out(s.to_string()));
    assert(shown(v@) == shown(old(v)@).push(Shown::Out(s@)));
}

/// Appends a line for standard error.
pub fn alert(v: &mut Vec<Line>, s: &str)
    ensures
        shown(final(v)@) == shown(old(v)@).push(Shown::Alert(s@)),
{
    v.push(Line::Alert(s.to_string()));
    assert(shown(v@) == shown(old(v)@).push(Shown::Alert(s@)));
}

/// No lines.
pub fn no_lines() -> (v: Vec<Line>)
    ensures
        shown(v@) == Seq::<Shown>::empty(),
{
    let v: Vec<Line> = Vec::new();
    assert(shown(v@) == Seq::<Shown>::empty());
    v
}

/// The lines of `a` followed by those of `b`.
pub fn concat(a: Vec<Line>, b: Vec<Line>) -> (r: Vec<Line>)
    ensures
        shown(r@) == shown(a@) + shown(b@),
{
    let mut r = a;
    let mut rest = b;
    r.append(&mut rest);
    assert(shown(r@) == shown(a@) + shown(b@));
    r
}

/// Every line of `v`, for standard output.
pub open spec fn all_out(v: Seq<Seq<char>>) -> Seq<Shown> {
    v.map_values(|s: Seq<char>| Shown::Out(s))
}

/// Turns strings into lines for standard output.
pub fn out_all(v: Vec<String>) -> (r: Vec<Line>)
    ensures
        shown(r@) == all_out(text::texts(v@)),
{
    let mut r: Vec<Line> = Vec::new();
    let mut i: usize = 0;
    while i < v.len()
        invariant
            i <= v.len(),
            shown(r@) == all_out(text::texts(v@)).take(i as int),
        decreases v.len() - i,
    {
        out(&mut r, v[i].as_str());
        assert(all_out(text::texts(v@)).take(i as int + 1) == all_out(text::texts(v@)).take(
            i as int,
        ).push(Shown::Out(v@[i as int]@)));
        i = i + 1;
    }
    assert(all_out(text::texts(v@)).take(v@.len() as int) == all_out(text::texts(v@)));
    r
}

/// Concatenates two strings.
pub fn glue(a: &str, b: &str) -> (r: String)
    ensures
        r@ == a@ + b@,
{
    let mut r = a.to_string();
    r.append(b);
    r
}

/// Concatenates three strings.
pub fn glue3(a: &str, b: &str, c: &str) -> (r: String)
    ensures
        r@ == a@ + b@ + c@,
{
    let mut r = a.to_string();
    r.append(b);
    r.append(c);
    r
}

/// Appends a string to a list of strings.
pub fn say(v: &mut Vec<String>, s: &str)
    ensures
        text::texts(final(v)@) == text::texts(old(v)@).push(s@),
{
    v.push(s.to_string());
    assert(text::texts(v@) == text::texts(old(v)@).push(s@));
}

/// No strings.
pub fn no_texts() -> (v: Vec<String>)
    ensures
        text::texts(v@) == Seq::<Seq<char>>::empty(),
{
    let v: Vec<String> = Vec::new();
    assert(text::texts(v@) == Seq::<Seq<char>>::empty());
    v
}

/// Parts in square brackets, separated by commas.
pub open spec fn bracketed(parts: Seq<Seq<char>>) -> Seq<char> {
    "["@ + text::joined(parts, ", "@) + "]"@
}

/// A list of strings as it appears under `{:?}`.
pub open spec fn quoted_list(names: Seq<String>) -> Seq<char> {
    bracketed(names.map_values(|s: String| text::debug_text(s@)))
}

/// A list of numbers as it appears under `{:?}`.
pub open spec fn number_list(numbers: Seq<u64>) -> Seq<char> {
    bracketed(numbers.map_values(|n: u64| text::decimal(n as nat)))
}

/// Formats a list of strings, each quoted.
pub fn quoted_list_text(names: &Vec<String>) -> (r: String)
    ensures
        r@ == quoted_list(names@),
{
    let mut parts: Vec<String> = Vec::new();
    let ghost all = names@.map_values(|s: String| text::debug_text(s@));
    let mut i: usize = 0;
    while i < names.len()
        invariant
            i <= names.len(),
            all == names@.map_values(|s: String| text::debug_text(s@)),
            text::texts(parts@) == all.take(i as int),
        decreases names.len() - i,
    {
        add_text(&mut parts, debug_string(names[i].as_str()));
        assert(all.take(i as int + 1) == all.take(i as int).push(all[i as int]));
        i = i + 1;
    }
    assert(all.take(all.len() as int) == all);
    glue3("[", join(&parts, ", ").as_str(), "]")
}

fn add_text(v: &mut Vec<String>, s: String)
    ensures
        text::texts(final(v)@) == text::texts(old(v)@).push(s@),
{
    v.push(s);
    assert(text::texts(v@) == text::texts(old(v)@).push(s@));
}

/// Formats a list of numbers.
pub fn number_list_text(numbers: &Vec<u64>) -> (r: String)
    ensures
        r@ == number_list(numbers@),
{
    let mut parts: Vec<String> = Vec::new();
    let ghost all = numbers@.map_values(|n: u64| text::decimal(n as nat));
    let mut i: usize = 0;
    while i < numbers.len()
        invariant
            i <= numbers.len(),
            all == numbers@.map_values(|n: u64| text::decimal(n as nat)),
            text::texts(parts@) == all.take(i as int),
        decreases numbers.len() - i,
    {
        add_text(&mut parts, u64_text(numbers[i]));
        assert(all.take(i as int + 1) == all.take(i as int).push(all[i as int]));
        i = i + 1;
    }
    assert(all.take(all.len() as int) == all);
    glue3("[", join(&parts, ", ").as_str(), "]")
}

/// An optional number as it appears under `{:?}`.
pub open spec fn optional_number(n: Option<usize>) -> Seq<char> {
    match n {
        Some(k) => "Some("@ + text::decimal(k as nat) + ")"@,
        None => "None"@,
    }
}

/// Formats an optional number.
pub fn optional_number_text(n: Option<usize>) -> (r: String)
    ensures
        r@ == optional_number(n),
{
    match n {
        Some(k) => glue3("Some(", usize_text(k).as_str(), ")"),
        None => "None".to_string(),
    }
}

/// A truth value in words.
pub open spec fn truth(b: bool) -> Seq<char> {
    if b {
        "true"@
    } else {
        "false"@
    }
}

/// Writes a truth value in words.
pub fn truth_text(b: bool) -> (r: String)
    ensures
        r@ == truth(b),
{
    if b {
        "true".to_string()
    } else {
        "false".to_string()
    }
}

/// Every text becomes a line of its own, in order, for standard output.
pub proof fn law_all_out(v: Seq<Seq<char>>, i: int)
    requires
        0 <= i < v.len(),
    ensures
        all_out(v).len() == v.len(),
        all_out(v)[i] == Shown::Out(v[i]),
{
}

/// A list of numbers stands in brackets, with a comma and a space between two of them.
pub proof fn law_number_lists(a: Seq<u64>, n: u64)
    ensures
        number_list(Seq::empty()) == seq!['[', ']'],
        number_list(seq![n]) == seq!['['] + text::decimal(n as nat) + seq![']'],
        a.len() > 0 ==> number_list(a.push(n)) == number_list(a).drop_last() + seq![',', ' ']
            + text::decimal(n as nat) + seq![']'],
{
    reveal_strlit("[");
    reveal_strlit("]");
    reveal_strlit(", ");
    assert("["@ =~= seq!['[']);
    assert("]"@ =~= seq![']']);
    assert(", "@ =~= seq![',', ' ']);
    let parts = a.map_values(|n: u64| text::decimal(n as nat));
    let last = text::decimal(n as nat);
    text::law_joined(parts, last, ", "@);
    assert(Seq::<u64>::empty().map_values(|n: u64| text::decimal(n as nat)) =~= Seq::<
        Seq<char>,
    >::empty());
    assert(seq![n].map_values(|n: u64| text::decimal(n as nat)) =~= seq![last]);
    assert(a.push(n).map_values(|n: u64| text::decimal(n as nat)) =~= parts.push(last));
    assert(number_list(Seq::empty()) =~= seq!['[', ']']);
    let all = "["@ + text::joined(parts, ", "@) + "]"@;
    assert(all.drop_last() =~= "["@ + text::joined(parts, ", "@));
}

/// Truth values and numbers that may be missing in words.
pub proof fn law_words_for_values(n: usize)
    ensures
        truth(true) == seq!['t', 'r', 'u', 'e'],
        truth(false) == seq!['f', 'a', 'l', 's', 'e'],
        optional_number(None) == seq!['N', 'o', 'n', 'e'],
        optional_number(Some(n)) == seq!['S', 'o', 'm', 'e', '('] + text::decimal(n as nat) + seq![
            ')',
        ],
{
    reveal_strlit("true");
    reveal_strlit("false");
    reveal_strlit("None");
    reveal_strlit("Some(");
    reveal_strlit(")");
    assert("true"@ =~= seq!['t', 'r', 'u', 'e']);
    assert("false"@ =~= seq!['f', 'a', 'l', 's', 'e']);
    assert("None"@ =~= seq!['N', 'o', 'n', 'e']);
    assert("Some("@ =~= seq!['S', 'o', 'm', 'e', '(']);
    assert(")"@ =~= seq![')']);
}

} // verus!
