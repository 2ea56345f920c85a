use vstd::prelude::*;

verus! {

/// Relies on termion's `style::Bold` as text: the sequence `ESC [ 1 m`.
#[verifier::external_body]
fn bold() -> (r: &'static str)
    ensures
        r@ == "\x1b[1m"@,
{
    termion::style::Bold.as_ref()
}

/// Relies on termion's `style::Reset` as text: the sequence `ESC [ m`.
#[verifier::external_body]
fn reset() -> (r: &'static str)
    ensures
        r@ == "\x1b[m"@,
{
    termion::style::Reset.as_ref()
}

/// Relies on termion's `style::Underline` as text: the sequence `ESC [ 4 m`.
#[verifier::external_body]
fn underline() -> (r: &'static str)
    ensures
        r@ == "\x1b[4m"@,
{
    termion::style::Underline.as_ref()
}

/// Relies on termion's `style::NoUnderline` as text: the sequence `ESC [ 2 4 m`.
#[verifier::external_body]
fn no_underline() -> (r: &'static str)
    ensures
        r@ == "\x1b[24m"@,
{
    termion::style::NoUnderline.as_ref()
}

/// Where a pass over marked-up text stands: what was written, and whether
/// bold and underline are on.
pub struct Marks {
    pub out: Seq<char>,
    pub bold: bool,
    pub underline: bool,
}

/// How one character moves the pass: `*` turns bold on or off (off is a full
/// reset), `_` turns underline on or off, any other character is written.
pub open spec fn mark_step(m: Marks, c: char) -> Marks {
    if c == '*' {
        Marks { out: m.out + if m.bold { "\x1b[m"@ } else { "\x1b[1m"@ }, bold: !m.bold, underline: m.underline }
    } else if c == '_' {
        Marks { out: m.out + if m.underline { "\x1b[24m"@ } else { "\x1b[4m"@ }, bold: m.bold, underline: !m.underline }
    } else {
        Marks { out: m.out.push(c), bold: m.bold, underline: m.underline }
    }
}

pub open spec fn marks_prefix(s: Seq<char>, n: nat) -> Marks
    decreases n,
{
    if n == 0 {
        Marks { out: Seq::empty(), bold: false, underline: false }
    } else {
        mark_step(marks_prefix(s, (n - 1) as nat), s[n - 1])
    }
}

/// The text with `*bold*` and `_underline_` markup turned into terminal
/// styles, and any style left open closed at the end.
pub open spec fn styled(s: Seq<char>) -> Seq<char> {
    let m = marks_prefix(s, s.len());
    m.out + (if m.bold { "\x1b[m"@ } else { Seq::empty() }) + (if m.underline { "\x1b[24m"@ } else { Seq::empty() })
}

/// Turn `*bold*` and `_underline_` markup into terminal styles.
pub fn fmt_text(text: &str) -> (r: String)
    ensures
        r@ == styled(text@),
{
    let chars = crate::text::chars_of(text);
    let mut result = String::new();
    let mut bold_on = false;
    let mut underline_on = false;
    let mut i: usize = 0;
    while i < chars.len()
        invariant
            i <= chars@.len(),
            chars@ == text@,
            marks_prefix(text@, i as nat) == (Marks { out: result@, bold: bold_on, underline: underline_on }),
        decreases chars@.len() - i,
    {
        let c = chars[i];
        proof {
            assert(text@[i as int] == c);
        }
        if c == '*' {
            if bold_on {
                result.append(reset());
            } else {
                result.append(bold());
            }
            bold_on = !bold_on;
        } else if c == '_' {
            if underline_on {
                result.append(no_underline());
            } else {
                result.append(underline());
            }
            underline_on = !underline_on;
        } else {
            let one = vec![c];
            let piece = crate::text::string_of(one.as_slice());
            proof {
                assert(one@ =~= seq![c]);
            }
            let ghost before = result@;
            result.append(piece.as_str());
            proof {
                assert(result@ =~= before.push(c));
            }
        }
        i = i + 1;
    }
    proof {
        assert(chars@.len() == text@.len());
    }
    if bold_on {
        result.append(reset());
    }
    if underline_on {
        result.append(no_underline());
    }
    proof {
        let m = marks_prefix(text@, text@.len());
        assert(result@ =~= styled(text@));
    }
    result
}

} // verus!
