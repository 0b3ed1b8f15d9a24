//! Sanitizing what is typed into a text field.

use vstd::prelude::*;
use vstd::std_specs::iter::IteratorSpec;

verus! {

broadcast use {vstd::string::axiom_spec_iter, vstd::string::next_postcondition};

#[derive(Debug, Clone, Copy, PartialEq, Eq, Structural)]
pub enum InputFormat {
    Any,
    Float,
}

pub open spec fn is_digit(c: char) -> bool {
    '0' <= c <= '9'
}

/// The digits and dots of `s`, dropping every dot after the first one
/// (or every dot, when one was `seen` already).
pub open spec fn float_chars(s: Seq<char>, seen: bool) -> Seq<char>
    decreases s.len(),
{
    if s.len() == 0 {
        Seq::empty()
    } else {
        let c = s[0];
        let rest = s.drop_first();
        if c == '.' {
            if seen {
                float_chars(rest, true)
            } else {
                seq!['.'] + float_chars(rest, true)
            }
        } else if is_digit(c) {
            seq![c] + float_chars(rest, seen)
        } else {
            float_chars(rest, seen)
        }
    }
}

/// `s` as the format allows it: unchanged for `Any`; for `Float`, a leading
/// minus sign kept, then only digits and the first dot.
pub open spec fn fix_spec(format: InputFormat, s: Seq<char>) -> Seq<char> {
    match format {
        InputFormat::Any => s,
        InputFormat::Float => if s.len() > 0 && s[0] == '-' {
            seq!['-'] + float_chars(s.drop_first(), false)
        } else {
            float_chars(s, false)
        },
    }
}

/// Relies on String::push: appends one character.
#[verifier::external_body]
fn push_char(s: &mut String, c: char)
    ensures
        final(s)@ == old(s)@.push(c),
{
    s.push(c)
}

impl InputFormat {
    pub fn fix(&self, s: &str) -> (r: String)
        ensures
            r@ == fix_spec(*self, s@),
    {
        match self {
            InputFormat::Any => s.to_owned(),
            InputFormat::Float => {
                let mut out = String::new();
                let mut chars = s.chars();
                let ghost all = s@;
                let mut first = true;
                let mut seen = false;
                let ghost mut i: int = 0;
                proof {
                    assert(IteratorSpec::remaining(&vstd::string::spec_iter(s)) == s@);
                    assert(all.subrange(0, all.len() as int) =~= all);
                }
                loop
                    invariant
                        0 <= i <= all.len(),
                        all == s@,
                        IteratorSpec::remaining(&chars) == all.subrange(i, all.len() as int),
                        IteratorSpec::obeys_prophetic_iter_laws(&chars),
                        first == (i == 0),
                        i == 0 ==> out@.len() == 0 && !seen,
                        i > 0 ==> fix_spec(InputFormat::Float, all) == out@ + float_chars(
                            all.subrange(i, all.len() as int),
                            seen,
                        ),
                    ensures
                        fix_spec(InputFormat::Float, s@) == out@,
                    decreases all.len() - i,
                {
                    match chars.next() {
                        Some(c) => {
                            proof {
                                let rest = all.subrange(i, all.len() as int);
                                assert(rest.drop_first() =~= all.subrange(i + 1, all.len() as int));
                                assert(c == rest[0]);
                                if i == 0 {
                                    assert(all.drop_first() =~= all.subrange(1, all.len() as int));
                                    assert(rest =~= all);
                                    if c != '-' {
                                        assert(out@ + float_chars(rest, seen) =~= float_chars(all, false));
                                    }
                                }
                            }
                            if first && c == '-' {
                                push_char(&mut out, c);
                                assert(out@ =~= seq!['-']);
                            } else if c == '.' {
                                if !seen {
                                    let ghost before = out@;
                                    push_char(&mut out, c);
                                    seen = true;
                                    proof {
                                        assert(out@ + float_chars(all.subrange(i + 1, all.len() as int), true)
                                            =~= before + (seq!['.'] + float_chars(
                                            all.subrange(i + 1, all.len() as int),
                                            true,
                                        )));
                                    }
                                }
                            } else if '0' <= c && c <= '9' {
                                let ghost before = out@;
                                push_char(&mut out, c);
                                proof {
                                    assert(out@ + float_chars(all.subrange(i + 1, all.len() as int), seen)
                                        =~= before + (seq![c] + float_chars(all.subrange(i + 1, all.len() as int), seen)));
                                }
                            }
                            first = false;
                            proof {
                                i = i + 1;
                            }
                        },
                        None => {
                            proof {
                                assert(all.subrange(i, all.len() as int).len() == 0);
                                assert(out@ + Seq::<char>::empty() =~= out@);
                                assert(float_chars(all.subrange(i, all.len() as int), seen) =~= Seq::<char>::empty());
                                if i == 0 {
                                    assert(all.len() == 0);
                                    assert(float_chars(all, false) =~= Seq::<char>::empty());
                                    assert(out@ =~= Seq::<char>::empty());
                                } else {
                                    assert(fix_spec(InputFormat::Float, all) == out@ + float_chars(
                                        all.subrange(i, all.len() as int),
                                        seen,
                                    ));
                                }
                                assert(fix_spec(InputFormat::Float, all) == out@);
                            }
                            break;
                        },
                    }
                }
                out
            },
        }
    }
}

} // verus!
