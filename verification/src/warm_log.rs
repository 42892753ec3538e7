//! The CSV log of a warm: one row per file or failure.

use vstd::prelude::*;
use vstd::string::StringExecFns;

use crate::report::{glue, glue3};
use crate::text;
use crate::text::{chars_of, u64_text};

verus! {

/// The heading of the log.
pub const LOG_HEADER: &'static str =
    "\"Service name\",\"path\",\"filename\",\"size (bytes)\",\"status\",\"details\"";

/// A text with every quotation mark doubled.
pub open spec fn doubled(s: Seq<char>) -> Seq<char>
    decreases s.len(),
{
    if s.len() == 0 {
        Seq::empty()
    } else if s.last() == '"' {
        doubled(s.drop_last()).push('"').push('"')
    } else {
        doubled(s.drop_last()).push(s.last())
    }
}

/// A quoted field.
pub open spec fn field_text(s: Seq<char>) -> Seq<char> {
    "\""@ + doubled(s) + "\""@
}

/// A size, or nothing where none is known.
pub open spec fn size_text(size: Option<u64>) -> Seq<char> {
    match size {
        Some(n) => text::decimal(n as nat),
        None => ""@,
    }
}

/// One row of the log.
pub open spec fn row_text(
    service: Seq<char>,
    path: Seq<char>,
    filename: Seq<char>,
    size: Option<u64>,
    status: Seq<char>,
    details: Seq<char>,
) -> Seq<char> {
    field_text(service) + ","@ + field_text(path) + ","@ + field_text(filename) + ","@ + size_text(
        size,
    ) + ","@ + field_text(status) + ","@ + field_text(details)
}

fn field(s: &str) -> (r: String)
    ensures
        r@ == field_text(s@),
{
    let all = chars_of(s);
    let mut d = String::new();
    let mut i: usize = 0;
    assert(d@ == doubled(all@.take(0)));
    while i < all.len()
        invariant
            i <= all.len(),
            d@ == doubled(all@.take(i as int)),
        decreases all.len() - i,
    {
        assert(all@.take(i as int + 1).drop_last() == all@.take(i as int));
        assert(all@.take(i as int + 1).last() == all@[i as int]);
        if all[i] == '"' {
            d.push('"');
        }
        d.push(all[i]);
        i = i + 1;
    }
    assert(all@.take(all@.len() as int) == all@);
    glue3("\"", d.as_str(), "\"")
}

/// Formats one row of the log.
pub fn log_row(
    service: &str,
    path: &str,
    filename: &str,
    size: Option<u64>,
    status: &str,
    details: &str,
) -> (r: String)
    ensures
        r@ == row_text(service@, path@, filename@, size, status@, details@),
{
    let mut r = field(service);
    r.append(",");
    r.append(field(path).as_str());
    r.append(",");
    r.append(field(filename).as_str());
    r.append(",");
    match size {
        Some(n) => r.append(u64_text(n).as_str()),
        None => r.append(""),
    }
    r.append(",");
    r.append(field(status).as_str());
    r.append(",");
    r.append(field(details).as_str());
    r
}

/// The name of the log file for a time stamp; `suffix` tells apart two that share it.
pub fn log_file_name(stamp: &str, suffix: Option<u32>) -> (r: String)
    ensures
        r@ == "warm-drive-cache-"@ + stamp@ + match suffix {
            Some(n) => "-"@ + text::decimal(n as nat) + ".csv"@,
            None => ".csv"@,
        },
{
    let mut r = glue("warm-drive-cache-", stamp);
    match suffix {
        Some(n) => r.append(glue3("-", u64_text(n as u64).as_str(), ".csv").as_str()),
        None => r.append(".csv"),
    }
    r
}

/// The text between the quotation marks of a field, with every doubled mark made single.
pub open spec fn halved(d: Seq<char>) -> Seq<char>
    decreases d.len(),
{
    if d.len() == 0 {
        Seq::empty()
    } else if d.len() >= 2 && d.last() == '"' && d[d.len() - 2] == '"' {
        halved(d.take(d.len() - 2)).push('"')
    } else {
        halved(d.drop_last()).push(d.last())
    }
}

/// What was written into a field is read back from it.
pub proof fn law_fields_read_back(s: Seq<char>)
    ensures
        field_text(s).len() >= 2,
        halved(field_text(s).subrange(1, field_text(s).len() - 1)) == s,
{
    reveal_strlit("\"");
    assert(field_text(s).subrange(1, field_text(s).len() - 1) == doubled(s));
    lemma_halved(s);
}

proof fn lemma_halved(s: Seq<char>)
    ensures
        halved(doubled(s)) == s,
    decreases s.len(),
{
    if s.len() > 0 {
        lemma_halved(s.drop_last());
        let d = doubled(s);
        if s.last() == '"' {
            assert(d.take(d.len() - 2) == doubled(s.drop_last()));
        } else {
            assert(d.drop_last() == doubled(s.drop_last()));
        }
        assert(s == s.drop_last().push(s.last()));
    } else {
        assert(s == Seq::<char>::empty());
    }
}

/// A mark is doubled wherever it stands, and every other character is kept as it is.
pub proof fn law_marks_are_doubled(a: Seq<char>, c: char, b: Seq<char>)
    ensures
        doubled(a + seq![c] + b) == doubled(a) + (if c == '"' {
            seq!['"', '"']
        } else {
            seq![c]
        }) + doubled(b),
        doubled(Seq::empty()) == Seq::<char>::empty(),
    decreases b.len(),
{
    let s = a + seq![c] + b;
    if b.len() == 0 {
        assert(s.drop_last() == a);
        assert(doubled(b) == Seq::<char>::empty());
    } else {
        assert(s.drop_last() == a + seq![c] + b.drop_last());
        law_marks_are_doubled(a, c, b.drop_last());
    }
}

/// A row has six fields in the order of the heading: service, path, filename, size, status
/// and details. All but the size stand between quotation marks.
pub proof fn law_row_fields(
    service: Seq<char>,
    path: Seq<char>,
    filename: Seq<char>,
    size: Option<u64>,
    status: Seq<char>,
    details: Seq<char>,
)
    ensures
        row_text(service, path, filename, size, status, details) == seq!['"'] + doubled(service)
            + seq!['"', ',', '"'] + doubled(path) + seq!['"', ',', '"'] + doubled(filename)
            + seq!['"', ','] + (match size {
            Some(n) => text::decimal(n as nat),
            None => Seq::empty(),
        }) + seq![',', '"'] + doubled(status) + seq!['"', ',', '"'] + doubled(details) + seq!['"'],
{
    reveal_strlit("\"");
    reveal_strlit(",");
    reveal_strlit("");
    let m = seq!['"'];
    let c = seq![','];
    assert("\""@ == m);
    assert(","@ == c);
    assert(m + c + m == seq!['"', ',', '"']);
    assert(m + c == seq!['"', ',']);
    assert(c + m == seq![',', '"']);
    assert(size is None ==> size_text(size) == Seq::<char>::empty());
}

} // verus!
