//! The non-consuming window builder: candidates, accumulated flags, and
//! the serialization of both into a child-process invocation.

use vstd::prelude::*;

use crate::decode::decode_index;
use crate::decode::decode_text;
use crate::decode::spec_decode_index;
use crate::decode::spec_decode_text;
use crate::error::Error;
use crate::format::Format;
use crate::numeral::decimal_string;
use crate::numeral::spec_decimal;
use crate::width::Width;

verus! {

/// The abstract state of a builder: every field the child-process
/// invocation is computed from.
#[verifier::ext_equal]
pub ghost struct RofiView {
    /// The candidate lines, in offer order.
    pub elements: Seq<Seq<char>>,
    /// Whether matching is case sensitive (insensitive by default).
    pub case_sensitive: bool,
    /// An explicit line count; the candidate count stands in when absent.
    pub lines: Option<usize>,
    /// The width constraint of the window.
    pub width: Width,
    /// How the child is asked to format its answer.
    pub format: Format,
    /// The extra flag tokens accumulated so far, in append order.
    pub args: Seq<Seq<char>>,
}

/// Window builder for the external selector process.
///
/// A builder borrows its candidate list, accumulates display options in
/// place, and can serialize its current state into a process invocation
/// any number of times: configuring and spawning never consume it.  The
/// one deliberate side effect: asking for an index-format run permanently
/// switches the stored return format to `Format::Index`.
#[derive(Debug)]
pub struct Rofi<'a> {
    elements: &'a Vec<String>,
    case_sensitive: bool,
    lines: Option<usize>,
    width: Width,
    format: Format,
    args: Vec<String>,
}

impl<'a> View for Rofi<'a> {
    type V = RofiView;

    closed spec fn view(&self) -> RofiView {
        RofiView {
            elements: self.elements.deep_view(),
            case_sensitive: self.case_sensitive,
            lines: self.lines,
            width: self.width,
            format: self.format,
            args: self.args.deep_view(),
        }
    }
}

/// The line count passed to the child: the explicit one if set, the
/// candidate count otherwise.
pub open spec fn lines_count(v: RofiView) -> int {
    match v.lines {
        Option::Some(l) => l as int,
        Option::None => v.elements.len() as int,
    }
}

/// The exact argument list of the child-process invocation: the dmenu
/// flag, the accumulated extra flags in append order, the format token,
/// the line count, the case-sensitivity flag, and the width tokens.
pub open spec fn spec_args(v: RofiView) -> Seq<Seq<char>> {
    seq!["-dmenu"@] + v.args + seq![
        "-format"@,
        v.format.token(),
        "-lines"@,
        spec_decimal(lines_count(v)),
        if v.case_sensitive {
            "-case-sensitive"@
        } else {
            "-i"@
        },
    ] + v.width.arg_tokens()
}

/// The exact byte stream written to the child's input: every candidate in
/// offer order, each followed by one newline.
pub open spec fn spec_input(es: Seq<Seq<char>>) -> Seq<char>
    decreases es.len(),
{
    if es.len() == 0 {
        Seq::empty()
    } else {
        spec_input(es.drop_last()) + es.last() + "\n"@
    }
}

impl<'a> Rofi<'a> {
    /// A new, unconfigured window over the candidates provided: case
    /// insensitive, no explicit line count, width and format at their
    /// defaults, no extra flags.
    pub fn new(elements: &'a Vec<String>) -> (r: Self)
        ensures
            r@ == (RofiView {
                elements: elements.deep_view(),
                case_sensitive: false,
                lines: Option::None,
                width: Width::Unset,
                format: Format::Text,
                args: Seq::empty(),
            }),
    {
        let r = Rofi {
            elements,
            case_sensitive: false,
            lines: None,
            width: Width::Unset,
            format: Format::Text,
            args: Vec::new(),
        };
        proof {
            assert(r@ =~= (RofiView {
                elements: elements.deep_view(),
                case_sensitive: false,
                lines: Option::None,
                width: Width::Unset,
                format: Format::Text,
                args: Seq::empty(),
            }));
        }
        r
    }

    /// Appends the markup flag.  Calling this twice appends the token
    /// twice: flag accumulation is deliberately append-only.
    pub fn pango(&mut self) -> (r: &mut Self)
        ensures
            r@ == (RofiView { args: old(self)@.args.push("-markup-rows"@), ..old(self)@ }),
            *final(self) == *final(r),
    {
        self.args.push(String::from_str("-markup-rows"));
        proof {
            assert(self@ =~= (RofiView {
                args: old(self)@.args.push("-markup-rows"@),
                ..old(self)@
            }));
        }
        self
    }

    /// Appends the password-mode flag; append-only, like `pango`.
    pub fn password(&mut self) -> (r: &mut Self)
        ensures
            r@ == (RofiView { args: old(self)@.args.push("-password"@), ..old(self)@ }),
            *final(self) == *final(r),
    {
        self.args.push(String::from_str("-password"));
        proof {
            assert(self@ =~= (RofiView { args: old(self)@.args.push("-password"@), ..old(self)@ }));
        }
        self
    }

    /// Sets an explicit number of lines; without it, the candidate count
    /// is used.
    pub fn lines(&mut self, l: usize) -> (r: &mut Self)
        ensures
            r@ == (RofiView { lines: Option::Some(l), ..old(self)@ }),
            *final(self) == *final(r),
    {
        self.lines = Some(l);
        self
    }

    /// Sets the case sensitivity (disabled by default).
    pub fn case_sensitive(&mut self, sensitivity: bool) -> (r: &mut Self)
        ensures
            r@ == (RofiView { case_sensitive: sensitivity, ..old(self)@ }),
            *final(self) == *final(r),
    {
        self.case_sensitive = sensitivity;
        self
    }

    /// Appends the prompt flag and its text.
    pub fn prompt(&mut self, prompt: String) -> (r: &mut Self)
        ensures
            r@ == (RofiView {
                args: old(self)@.args.push("-p"@).push(prompt@),
                ..old(self)@
            }),
            *final(self) == *final(r),
    {
        self.args.push(String::from_str("-p"));
        self.args.push(prompt);
        proof {
            assert(self@ =~= (RofiView {
                args: old(self)@.args.push("-p"@).push(prompt@),
                ..old(self)@
            }));
        }
        self
    }

    /// Appends the theme flag and the theme's name; with no name this is
    /// a no-op.
    pub fn theme(&mut self, theme: Option<String>) -> (r: &mut Self)
        ensures
            match theme {
                Option::Some(t) => r@ == (RofiView {
                    args: old(self)@.args.push("-theme"@).push(t@),
                    ..old(self)@
                }),
                Option::None => r@ == old(self)@,
            },
            *final(self) == *final(r),
    {
        match theme {
            Some(t) => {
                let ghost tv = t@;
                self.args.push(String::from_str("-theme"));
                self.args.push(t);
                proof {
                    assert(self@ =~= (RofiView {
                        args: old(self)@.args.push("-theme"@).push(tv),
                        ..old(self)@
                    }));
                }
            },
            None => {},
        }
        self
    }

    /// Stores the return format.  A later index-format run overrides this
    /// silently: that coupling is part of the protocol.
    pub fn return_format(&mut self, format: Format) -> (r: &mut Self)
        ensures
            r@ == (RofiView { format: format, ..old(self)@ }),
            *final(self) == *final(r),
    {
        self.format = format;
        self
    }

    /// Stores the width if it passes validation and reports the violated
    /// bound otherwise, leaving the prior configuration untouched.
    pub fn width(&mut self, w: Width) -> (r: Result<&mut Self, Error>)
        ensures
            w.valid() ==> (r matches Ok(s) && s@ == (RofiView { width: w, ..old(self)@ })
                && *final(self) == *final(s)),
            !w.valid() ==> (r matches Err(e) && (e matches Error::InvalidWidth(_))
                && *final(self) == *old(self)),
    {
        match w.check() {
            Ok(()) => {
                self.width = w;
                Ok(self)
            },
            Err(e) => Err(e),
        }
    }

    /// How many candidates are on offer: the count an index answer is
    /// bounds-checked against.
    pub fn element_count(&self) -> (n: usize)
        ensures
            n == self@.elements.len(),
    {
        self.elements.len()
    }

    /// The full argument list of the child-process invocation, exactly as
    /// `spec_args` lays it out.
    pub fn command_args(&self) -> (v: Vec<String>)
        ensures
            v.deep_view() == spec_args(self@),
    {
        let mut v: Vec<String> = Vec::new();
        v.push(String::from_str("-dmenu"));
        proof {
            assert(v.deep_view() =~= seq!["-dmenu"@] + self@.args.subrange(0, 0));
        }
        let mut i: usize = 0;
        while i < self.args.len()
            invariant
                i <= self.args.len(),
                v.deep_view() == seq!["-dmenu"@] + self@.args.subrange(0, i as int),
            decreases self.args.len() - i,
        {
            let ghost prev = v@;
            let ghost prev_dv = v.deep_view();
            let x = self.args[i].clone();
            v.push(x);
            proof {
                let cur = v.deep_view();
                let rhs = seq!["-dmenu"@] + self@.args.subrange(0, i as int + 1);
                assert(prev_dv.len() == i + 1);
                assert forall|j: int| 0 <= j < cur.len() implies cur[j] == rhs[j] by {
                    if j < prev.len() {
                        assert(cur[j] == v@[j].deep_view());
                        assert(prev_dv[j] == prev[j].deep_view());
                    } else {
                        assert(cur[j] == x.deep_view());
                        assert(self@.args[i as int] == self.args@[i as int].deep_view());
                    }
                }
                assert(cur =~= rhs);
            }
            i = i + 1;
        }
        proof {
            assert(self@.args.subrange(0, self.args.len() as int) =~= self@.args);
        }
        v.push(String::from_str("-format"));
        v.push(String::from_str(self.format.as_arg()));
        v.push(String::from_str("-lines"));
        match self.lines {
            Some(l) => v.push(decimal_string(l)),
            None => v.push(decimal_string(self.elements.len())),
        }
        if self.case_sensitive {
            v.push(String::from_str("-case-sensitive"));
        } else {
            v.push(String::from_str("-i"));
        }
        match &self.width {
            Width::Unset => {},
            Width::Percentage(x) => {
                v.push(String::from_str("-width"));
                v.push(decimal_string(*x));
            },
            Width::Pixels(x) => {
                v.push(String::from_str("-width"));
                v.push(decimal_string(*x));
            },
            Width::Characters(x) => {
                v.push(String::from_str("-width"));
                let mut s = String::from_str("-");
                s.append(decimal_string(*x).as_str());
                v.push(s);
            },
        }
        proof {
            assert(v.deep_view() =~= spec_args(self@));
        }
        v
    }

    /// The byte stream for the child's standard input: every candidate in
    /// offer order, each followed by one newline, exactly as `spec_input`
    /// lays it out.
    pub fn input_payload(&self) -> (s: String)
        ensures
            s@ == spec_input(self@.elements),
    {
        let mut s = String::new();
        let mut i: usize = 0;
        while i < self.elements.len()
            invariant
                i <= self.elements.len(),
                s@ == spec_input(self@.elements.subrange(0, i as int)),
            decreases self.elements.len() - i,
        {
            s.append(self.elements[i].as_str());
            s.append("\n");
            proof {
                let es = self@.elements;
                assert(es.subrange(0, i + 1).drop_last() =~= es.subrange(0, i as int));
                assert(es.subrange(0, i + 1).last() == es[i as int]);
            }
            i = i + 1;
        }
        proof {
            assert(self@.elements.subrange(0, self.elements.len() as int) =~= self@.elements);
        }
        s
    }

    /// Decodes a finished text-format run from the child's exit status
    /// and captured standard output: the selected line, or the protocol
    /// error the outcome falls under.  The builder is only read, so it
    /// can serve any number of runs.
    pub fn run(&self, success: bool, output: &str) -> (r: Result<String, Error>)
        ensures
            match r {
                Ok(s) => spec_decode_text(success, output@) == Ok::<Seq<char>, Error>(s@),
                Err(e) => spec_decode_text(success, output@) == Err::<Seq<char>, Error>(e),
            },
    {
        decode_text(success, output)
    }

    /// Decodes a finished index-format run against this builder's
    /// candidate count, and permanently switches the stored return format
    /// to `Format::Index`, the documented side effect of asking for an
    /// index; nothing else of the configuration changes.
    pub fn run_index(&mut self, success: bool, output: &str) -> (r: Result<usize, Error>)
        ensures
            final(self)@ == (RofiView { format: Format::Index, ..old(self)@ }),
            match r {
                Ok(i) => spec_decode_index(success, output@, old(self)@.elements.len() as int)
                    == Ok::<usize, Error>(i),
                Err(e) => spec_decode_index(success, output@, old(self)@.elements.len() as int)
                    == Err::<usize, Error>(e),
            },
    {
        self.format = Format::Index;
        decode_index(success, output, self.elements.len())
    }
}

} // verus!
