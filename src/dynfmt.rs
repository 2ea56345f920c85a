use vstd::prelude::*;
use crate::text::{StrMap, chars_of, string_of, lookup, concat_text};

verus! {

/// Why a template could not be filled in.
#[derive(Debug)]
pub enum FormatError {
    /// `{}` with no name between the braces.
    EmptyName,
    /// A `{name}` that the context does not hold.
    MissingVariable(String),
    /// A `}` with no `{` open.
    UnexpectedClose,
}

pub enum FormatErrorView {
    EmptyName,
    MissingVariable(Seq<char>),
    UnexpectedClose,
}

impl View for FormatError {
    type V = FormatErrorView;

    open spec fn view(&self) -> FormatErrorView {
        match self {
            FormatError::EmptyName => FormatErrorView::EmptyName,
            FormatError::MissingVariable(n) => FormatErrorView::MissingVariable(n@),
            FormatError::UnexpectedClose => FormatErrorView::UnexpectedClose,
        }
    }
}

pub open spec fn format_error_message(e: FormatErrorView) -> Seq<char> {
    match e {
        FormatErrorView::EmptyName => "You need to specify variable name in between '{' and '}' (e.g '{name}')"@,
        FormatErrorView::MissingVariable(n) => "Variable '"@ + n + "' is not present in the context."@,
        FormatErrorView::UnexpectedClose => "Unexpected '}'. Do you have an opening one?"@,
    }
}

impl FormatError {
    /// A line of text that describes the error.
    pub fn message(&self) -> (r: String)
        ensures
            r@ == format_error_message(self@),
    {
        match self {
            FormatError::EmptyName => String::from_str("You need to specify variable name in between '{' and '}' (e.g '{name}')"),
            FormatError::MissingVariable(n) => {
                let s = concat_text("Variable '", n.as_str());
                concat_text(s.as_str(), "' is not present in the context.")
            },
            FormatError::UnexpectedClose => String::from_str("Unexpected '}'. Do you have an opening one?"),
        }
    }
}

/// Where a left-to-right pass over a template stands: the text written so
/// far, and the name being read when inside braces.
pub struct FmtScan {
    pub out: Seq<char>,
    pub var: Option<Seq<char>>,
}

/// How one character moves the pass: `{` starts a name (dropping any name
/// being read), `}` ends it and writes the value the context holds for it,
/// and any other character goes to the name or to the output.
pub open spec fn fmt_step(st: FmtScan, c: char, ctx: Seq<(Seq<char>, String)>) -> Result<FmtScan, FormatErrorView> {
    if c == '{' {
        Ok(FmtScan { out: st.out, var: Some(Seq::empty()) })
    } else if c == '}' {
        match st.var {
            None => Err(FormatErrorView::UnexpectedClose),
            Some(name) => if name.len() == 0 {
                Err(FormatErrorView::EmptyName)
            } else {
                match lookup(ctx, name) {
                    Some(v) => Ok(FmtScan { out: st.out + v@, var: None }),
                    None => Err(FormatErrorView::MissingVariable(name)),
                }
            },
        }
    } else {
        match st.var {
            Some(name) => Ok(FmtScan { out: st.out, var: Some(name.push(c)) }),
            None => Ok(FmtScan { out: st.out.push(c), var: None }),
        }
    }
}

pub open spec fn fmt_prefix(s: Seq<char>, n: nat, ctx: Seq<(Seq<char>, String)>) -> Result<FmtScan, FormatErrorView>
    decreases n,
{
    if n == 0 {
        Ok(FmtScan { out: Seq::empty(), var: None })
    } else {
        match fmt_prefix(s, (n - 1) as nat, ctx) {
            Ok(st) => fmt_step(st, s[n - 1], ctx),
            Err(e) => Err(e),
        }
    }
}

/// The template with each `{name}` replaced by the context's value for it;
/// a name still open at the end is dropped.
pub open spec fn formatted(s: Seq<char>, ctx: Seq<(Seq<char>, String)>) -> Result<Seq<char>, FormatErrorView> {
    match fmt_prefix(s, s.len(), ctx) {
        Ok(st) => Ok(st.out),
        Err(e) => Err(e),
    }
}

proof fn lemma_fmt_error_sticks(s: Seq<char>, n: nat, m: nat, ctx: Seq<(Seq<char>, String)>)
    requires
        n <= m,
        fmt_prefix(s, n, ctx) is Err,
    ensures
        fmt_prefix(s, m, ctx) == fmt_prefix(s, n, ctx),
    decreases m - n,
{
    if n < m {
        lemma_fmt_error_sticks(s, n, (m - 1) as nat, ctx);
    }
}

pub open spec fn name_view(v: Option<Vec<char>>) -> Option<Seq<char>> {
    match v {
        Some(v) => Some(v@),
        None => None,
    }
}

/// Fill in a template such as `Hello {name}!` from the context.
pub fn format(template: &str, context: StrMap<String>) -> (r: Result<String, FormatError>)
    ensures
        match r {
            Ok(s) => formatted(template@, context@) == Ok::<Seq<char>, FormatErrorView>(s@),
            Err(e) => formatted(template@, context@) == Err::<Seq<char>, FormatErrorView>(e@),
        },
{
    let chars = chars_of(template);
    let mut out = String::new();
    let mut var: Option<Vec<char>> = None;
    let mut i: usize = 0;
    while i < chars.len()
        invariant
            i <= chars@.len(),
            chars@ == template@,
            fmt_prefix(template@, i as nat, context@) == Ok::<FmtScan, FormatErrorView>(FmtScan {
                out: out@,
                var: name_view(var),
            }),
        decreases chars@.len() - i,
    {
        let c = chars[i];
        let ghost st = FmtScan { out: out@, var: name_view(var) };
        proof {
            assert(template@[i as int] == c);
            assert(fmt_prefix(template@, (i + 1) as nat, context@) == fmt_step(st, c, context@));
        }
        if c == '{' {
            var = Some(Vec::new());
            proof {
                assert(var->Some_0@ =~= Seq::<char>::empty());
            }
        } else if c == '}' {
            match var {
                None => {
                    proof {
                        lemma_fmt_error_sticks(template@, (i + 1) as nat, template@.len(), context@);
                    }
                    return Err(FormatError::UnexpectedClose);
                },
                Some(name) => {
                    if name.len() == 0 {
                        proof {
                            lemma_fmt_error_sticks(template@, (i + 1) as nat, template@.len(), context@);
                        }
                        return Err(FormatError::EmptyName);
                    }
                    let key = string_of(name.as_slice());
                    match context.get(key.as_str()) {
                        Some(value) => {
                            out.append(value.as_str());
                        },
                        None => {
                            proof {
                                lemma_fmt_error_sticks(template@, (i + 1) as nat, template@.len(), context@);
                            }
                            return Err(FormatError::MissingVariable(key));
                        },
                    }
                    var = None;
                },
            }
        } else {
            match var {
                Some(mut name) => {
                    name.push(c);
                    var = Some(name);
                },
                None => {
                    let one = vec![c];
                    let piece = string_of(one.as_slice());
                    proof {
                        assert(one@ =~= seq![c]);
                    }
                    out.append(piece.as_str());
                    proof {
                        assert(out@ =~= st.out.push(c));
                    }
                },
            }
        }
        i = i + 1;
    }
    proof {
        assert(chars@.len() == template@.len());
    }
    Ok(out)
}

} // verus!
