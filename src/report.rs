use vstd::prelude::*;
use vstd::string::StringExecFns;
use crate::matcher::Matcher;
use crate::text::chars_of;

verus! {

/// The decimal digit of `d`.
pub open spec fn digit(d: nat) -> char {
    if d == 0 { '0' }
    else if d == 1 { '1' }
    else if d == 2 { '2' }
    else if d == 3 { '3' }
    else if d == 4 { '4' }
    else if d == 5 { '5' }
    else if d == 6 { '6' }
    else if d == 7 { '7' }
    else if d == 8 { '8' }
    else { '9' }
}

/// `n` written in decimal, without leading zeros.
pub open spec fn decimal(n: nat) -> Seq<char>
    decreases n,
{
    if n < 10 {
        seq![digit(n)]
    } else {
        decimal(n / 10).push(digit(n % 10))
    }
}

/// Relies on the `Display` of `usize` behind `to_string`: `n` in decimal.
#[verifier::external_body]
fn decimal_string(n: usize) -> (r: String)
    ensures
        r@ == decimal(n as nat),
{
    n.to_string()
}

/// `k` spaces.
pub open spec fn spaces(k: nat) -> Seq<char>
    decreases k,
{
    if k == 0 {
        seq![]
    } else {
        spaces((k - 1) as nat).push(' ')
    }
}

/// `s` followed by spaces up to `width` characters, or `None` where `s` is
/// longer than that.
pub open spec fn padded(s: Seq<char>, width: nat) -> Option<Seq<char>> {
    if s.len() > width {
        None
    } else {
        Some(s + spaces((width - s.len()) as nat))
    }
}

/// Pads `string` with spaces to `chars` characters. A string that is longer
/// comes back unchanged as the error.
pub fn pad(string: String, chars: u8) -> (r: Result<String, String>)
    ensures
        padded(string@, chars as nat) is None ==> r == Err::<String, String>(string),
        padded(string@, chars as nat) matches Some(p) ==> r matches Ok(s) && s@ == p,
{
    let count = string.as_str().unicode_len();
    if count > chars as usize {
        return Err(string);
    }
    let mut s = string;
    let mut k: usize = count;
    while k < chars as usize
        invariant
            count == string@.len(),
            count <= k <= chars,
            s@ == string@ + spaces((k - count) as nat),
        decreases chars - k,
    {
        s.append(" ");
        proof {
            reveal_strlit(" ");
            assert(spaces((k + 1 - count) as nat) == spaces((k - count) as nat).push(' '));
            assert(s@ =~= string@ + spaces((k + 1 - count) as nat));
        }
        k = k + 1;
    }
    Ok(s)
}

/// The width that line numbers are padded to.
pub const LINE_LABEL_WIDTH: u8 = 4;

/// The label of line `n`: its number in decimal, padded with spaces to four
/// characters when shorter.
pub open spec fn line_label_of(n: nat) -> Seq<char> {
    match padded(decimal(n), LINE_LABEL_WIDTH as nat) {
        Some(p) => p,
        None => decimal(n),
    }
}

/// The label of line `n`, as a report shows it.
pub fn line_label(n: usize) -> (r: String)
    ensures
        r@ == line_label_of(n as nat),
{
    match pad(decimal_string(n), LINE_LABEL_WIDTH) {
        Ok(s) => s,
        Err(s) => s,
    }
}

/// A matching line as a report shows it: `path:label: text`.
pub open spec fn record_of(path: Seq<char>, n: nat, text: Seq<char>) -> Seq<char> {
    path + seq![':'] + line_label_of(n) + seq![':', ' '] + text
}

/// Renders the record of line `n` of the file at `path`, whose text is `text`.
pub fn render_record(path: &str, n: usize, text: &str) -> (r: String)
    ensures
        r@ == record_of(path@, n as nat, text@),
{
    let mut r = String::from_str(path);
    r.append(":");
    let label = line_label(n);
    r.append(label.as_str());
    r.append(": ");
    r.append(text);
    proof {
        reveal_strlit(":");
        reveal_strlit(": ");
        assert(r@ =~= record_of(path@, n as nat, text@));
    }
    r
}

/// What the report holds for line `n` of the file at `path`: its record where the
/// matcher accepts the line, else nothing. Lines are numbered from zero.
pub fn report_line(m: &Matcher, path: &str, n: usize, text: &str) -> (r: Option<String>)
    ensures
        r is Some <==> m.accepts(text@),
        r matches Some(s) ==> s@ == record_of(path@, n as nat, text@),
{
    if m.matches(text) {
        Some(render_record(path, n, text))
    } else {
        None
    }
}

/// What the tag listing holds for a line: the line itself where it holds a tag.
pub fn report_tag_line(m: &Matcher, text: &str) -> (r: Option<String>)
    ensures
        r is Some <==> m.accepts(text@),
        r matches Some(s) ==> s@ == text@,
{
    if m.matches(text) {
        Some(String::from_str(text))
    } else {
        None
    }
}

/// The extension of the documents that a scan takes.
pub open spec fn markdown_extension() -> Seq<char> {
    seq!['m', 'd']
}

/// Whether a directory entry is a document: a regular file whose extension is
/// exactly `md`.
pub fn is_document(is_file: bool, extension: Option<&str>) -> (r: bool)
    ensures
        r == (is_file && extension is Some && extension.unwrap()@ == markdown_extension()),
{
    if !is_file {
        return false;
    }
    match extension {
        None => false,
        Some(e) => {
            let c = chars_of(e);
            let r = c.len() == 2 && c[0] == 'm' && c[1] == 'd';
            proof {
                if r {
                    assert(c@ =~= markdown_extension());
                }
            }
            r
        },
    }
}

} // verus!
