//! The console dialogue: the text written for messages and questions, and the
//! rules by which an answer typed by the user is accepted or asked again.
//!
//! Writing and reading the terminal is left to the caller; every function here
//! computes the exact text to write, or decides what a typed answer means.

use vstd::prelude::*;
use crate::text::{chars_lower_eq, chars_of, decimal, lemma_parse_decimal, lower_eq, parse_usize, push_chars, push_str, str_to_usize, string_of, trim, trim_str, usize_to_chars};

verus! {

/// `message` between the ANSI escape that selects the colour `color` and the
/// one that resets it, ended by a line break.
pub open spec fn colored(message: Seq<char>, color: Seq<char>) -> Seq<char> {
    seq!['\x1b', '['] + color + seq!['m'] + message + seq!['\x1b', '[', '0', 'm', '\n']
}

/// The owned copy of a string slice.
pub fn owned(s: &str) -> (r: String)
    ensures
        r@ == s@,
{
    s.to_owned()
}

/// The text that writes `message` in the colour `color`: the ANSI colour
/// escape, the message, the reset escape and a line break.
pub fn write_with_color(message: &str, color: &str) -> (r: String)
    ensures
        r@ == colored(message@, color@),
{
    let mut out: Vec<char> = Vec::new();
    out.push('\x1b');
    out.push('[');
    push_str(&mut out, color);
    out.push('m');
    push_str(&mut out, message);
    out.push('\x1b');
    out.push('[');
    out.push('0');
    out.push('m');
    out.push('\n');
    string_of(&out)
}

/// The text of a warning: `message` in yellow (colour 33).
pub fn write_warning(message: &str) -> (r: String)
    ensures
        r@ == colored(message@, seq!['3', '3']),
{
    proof {
        reveal_strlit("33");
    }
    write_with_color(message, "33")
}

/// The text of an error: `message` in red (colour 31).
pub fn write_error(message: &str) -> (r: String)
    ensures
        r@ == colored(message@, seq!['3', '1']),
{
    proof {
        reveal_strlit("31");
    }
    write_with_color(message, "31")
}

/// The text of a piece of information: `message` in green (colour 32).
pub fn write_info(message: &str) -> (r: String)
    ensures
        r@ == colored(message@, seq!['3', '2']),
{
    proof {
        reveal_strlit("32");
    }
    write_with_color(message, "32")
}

/// The text of a plain message: the message and a line break.
pub fn write(message: &str) -> (r: String)
    ensures
        r@ == message@.push('\n'),
{
    let mut out = chars_of(message);
    out.push('\n');
    string_of(&out)
}

/// The answer held by a line typed by the user: the line without leading and
/// trailing white space.
pub fn read(line: &str) -> (r: String)
    ensures
        r@ == trim(line@),
{
    trim_str(line)
}

/// What to do with an answer once it has been checked.
pub enum ReadStep<T> {
    /// The answer is accepted, with this meaning.
    Done(T),
    /// The answer is refused: write these texts, then ask again.
    Retry(Vec<String>),
}

/// Whether `step` is what a checked answer `outcome` leads to: an accepted
/// answer ends the question; a refused one writes the reason as a warning,
/// then the elaboration, if any, as a plain message.
pub open spec fn valid_step<T>(
    outcome: Result<T, String>,
    elaboration: Option<Seq<char>>,
    step: ReadStep<T>,
) -> bool {
    match outcome {
        Ok(v) => step == ReadStep::Done(v),
        Err(reason) => match step {
            ReadStep::Done(_) => false,
            ReadStep::Retry(lines) => match elaboration {
                None => lines@.len() == 1 && lines@[0]@ == colored(reason@, seq!['3', '3']),
                Some(e) => lines@.len() == 2 && lines@[0]@ == colored(reason@, seq!['3', '3'])
                    && lines@[1]@ == e.push('\n'),
            },
        },
    }
}

/// Decides the next step of a question from the checked answer: done with the
/// answer's meaning, or ask again after writing the reason and elaboration.
pub fn read_valid<T>(outcome: Result<T, String>, elaboration: Option<&str>) -> (r: ReadStep<T>)
    ensures
        valid_step(
            outcome,
            match elaboration {
                Some(e) => Some(e@),
                None => None,
            },
            r,
        ),
{
    match outcome {
        Ok(v) => ReadStep::Done(v),
        Err(reason) => {
            let mut lines: Vec<String> = Vec::new();
            lines.push(write_warning(reason.as_str()));
            match elaboration {
                Some(e) => {
                    lines.push(write(e));
                },
                None => {},
            }
            ReadStep::Retry(lines)
        },
    }
}

/// The prompt of a question for an integer: the bounds, if any, in square
/// brackets before the question.
pub open spec fn integer_prompt(prompt: Seq<char>, min: Option<usize>, max: Option<usize>) -> Seq<
    char,
> {
    match (min, max) {
        (None, None) => prompt,
        (Some(a), None) => seq!['['] + decimal(a as nat) + seq!['+', ']', ' '] + prompt,
        (None, Some(b)) => seq!['[', '-'] + decimal(b as nat) + seq![']', ' '] + prompt,
        (Some(a), Some(b)) => seq!['['] + decimal(a as nat) + seq!['-'] + decimal(b as nat)
            + seq![']', ' '] + prompt,
    }
}

/// The explanation written after an unacceptable answer to a question for an
/// integer.
pub open spec fn integer_elaboration(min: Option<usize>, max: Option<usize>) -> Seq<char> {
    match (min, max) {
        (None, None) => "Please enter an integer."@,
        (Some(a), None) => "Please enter an integer greater than "@ + decimal((a - 1) as nat)
            + "."@,
        (None, Some(b)) => "Please enter an integer less than "@ + decimal((b + 1) as nat) + "."@,
        (Some(a), Some(b)) => "Please enter an integer from "@ + decimal(a as nat) + " to "@
            + decimal(b as nat) + "."@,
    }
}

/// How an answer to a question for an integer is judged: a number (as
/// `usize::from_str` reads it) within the bounds is accepted; otherwise the
/// reason is given, the lower bound being checked before the upper one.
pub open spec fn integer_answer(answer: Seq<char>, min: Option<usize>, max: Option<usize>) -> Result<
    usize,
    Seq<char>,
> {
    match parse_usize(answer) {
        None => Err("Input is not an integer"@),
        Some(v) => if min is Some && v < min->0 {
            Err("Input is too low."@)
        } else if max is Some && v > max->0 {
            Err("Input is too high."@)
        } else {
            Ok(v as usize)
        },
    }
}

/// A question whose answer is an integer, optionally bounded.
pub struct IntegerQuestion {
    pub prompt: String,
    pub elaboration: String,
    pub min: Option<usize>,
    pub max: Option<usize>,
}

/// Appends the decimal digits of `n` to `out`.
pub fn push_usize(out: &mut Vec<char>, n: usize)
    ensures
        final(out)@ == old(out)@ + decimal(n as nat),
{
    let d = usize_to_chars(n);
    push_chars(out, &d);
}

/// Builds the question for an integer between the optional bounds `min` and
/// `max`, with its prompt and the explanation written after a wrong answer.
///
/// Without an upper bound the explanation names `min - 1`, and without a lower
/// bound it names `max + 1`; those numbers must exist.
pub fn read_integer(prompt: &str, min: Option<usize>, max: Option<usize>) -> (q: IntegerQuestion)
    requires
        max is None ==> (min matches Some(a) ==> a > 0),
        min is None ==> (max matches Some(b) ==> b < usize::MAX),
    ensures
        q.prompt@ == integer_prompt(prompt@, min, max),
        q.elaboration@ == integer_elaboration(min, max),
        q.min == min,
        q.max == max,
{
    let mut p: Vec<char> = Vec::new();
    let mut e: Vec<char> = Vec::new();
    match (min, max) {
        (None, None) => {
            push_str(&mut p, prompt);
            push_str(&mut e, "Please enter an integer.");
        },
        (Some(a), None) => {
            p.push('[');
            push_usize(&mut p, a);
            p.push('+');
            p.push(']');
            p.push(' ');
            push_str(&mut p, prompt);
            push_str(&mut e, "Please enter an integer greater than ");
            push_usize(&mut e, a - 1);
            push_str(&mut e, ".");
        },
        (None, Some(b)) => {
            p.push('[');
            p.push('-');
            push_usize(&mut p, b);
            p.push(']');
            p.push(' ');
            push_str(&mut p, prompt);
            push_str(&mut e, "Please enter an integer less than ");
            push_usize(&mut e, b + 1);
            push_str(&mut e, ".");
        },
        (Some(a), Some(b)) => {
            p.push('[');
            push_usize(&mut p, a);
            p.push('-');
            push_usize(&mut p, b);
            p.push(']');
            p.push(' ');
            push_str(&mut p, prompt);
            push_str(&mut e, "Please enter an integer from ");
            push_usize(&mut e, a);
            push_str(&mut e, " to ");
            push_usize(&mut e, b);
            push_str(&mut e, ".");
        },
    }
    proof {
        assert(p@ =~= integer_prompt(prompt@, min, max));
        assert(e@ =~= integer_elaboration(min, max));
    }
    IntegerQuestion { prompt: string_of(&p), elaboration: string_of(&e), min, max }
}

impl IntegerQuestion {
    /// Judges an answer: its value, or the reason it is refused.
    pub fn check(&self, answer: &str) -> (r: Result<usize, String>)
        ensures
            match integer_answer(answer@, self.min, self.max) {
                Ok(v) => r == Ok::<usize, String>(v),
                Err(reason) => r matches Err(s) && s@ == reason,
            },
    {
        match str_to_usize(answer) {
            None => Err(owned("Input is not an integer")),
            Some(v) => {
                match self.min {
                    Some(a) => {
                        if v < a {
                            return Err(owned("Input is too low."));
                        }
                    },
                    None => {},
                }
                match self.max {
                    Some(b) => {
                        if v > b {
                            return Err(owned("Input is too high."));
                        }
                    },
                    None => {},
                }
                Ok(v)
            },
        }
    }

    /// The next step after the answer `answer`: done with its value, or ask
    /// again after writing the reason and the explanation.
    pub fn respond(&self, answer: &str) -> (r: ReadStep<usize>)
        ensures
            match integer_answer(answer@, self.min, self.max) {
                Ok(v) => r == ReadStep::Done(v),
                Err(reason) => r matches ReadStep::Retry(lines) && lines@.len() == 2
                    && lines@[0]@ == colored(reason, seq!['3', '3'])
                    && lines@[1]@ == self.elaboration@.push('\n'),
            },
    {
        let checked = self.check(answer);
        read_valid(checked, Some(self.elaboration.as_str()))
    }
}

/// A number typed in decimal is accepted exactly when it lies within the
/// bounds: below the lower bound it is too low, above the upper one too high.
pub proof fn lemma_integer_answer_of_decimal(n: usize, min: Option<usize>, max: Option<usize>)
    ensures
        integer_answer(decimal(n as nat), min, max) == if min is Some && n < min->0 {
            Err::<usize, Seq<char>>("Input is too low."@)
        } else if max is Some && n > max->0 {
            Err::<usize, Seq<char>>("Input is too high."@)
        } else {
            Ok::<usize, Seq<char>>(n)
        },
{
    lemma_parse_decimal(n);
}

/// How an answer to a yes-or-no question is judged: `y` or `yes` mean yes, `n`
/// or `no` mean no, whatever the case of their letters; anything else is
/// refused.
pub open spec fn yes_no_answer(answer: Seq<char>) -> Result<bool, Seq<char>> {
    if lower_eq(answer, "y"@) || lower_eq(answer, "yes"@) {
        Ok(true)
    } else if lower_eq(answer, "n"@) || lower_eq(answer, "no"@) {
        Ok(false)
    } else {
        Err("Please answer 'Y' or 'N'."@)
    }
}

/// A question answered by yes or no.
pub struct YesNoQuestion {
    pub prompt: String,
}

/// Builds the yes-or-no question about `message`, prompted as `[Y/N] message`.
pub fn read_yes_no(message: &str) -> (q: YesNoQuestion)
    ensures
        q.prompt@ == "[Y/N] "@ + message@,
{
    let mut p: Vec<char> = Vec::new();
    push_str(&mut p, "[Y/N] ");
    push_str(&mut p, message);
    YesNoQuestion { prompt: string_of(&p) }
}

impl YesNoQuestion {
    /// Judges an answer: yes, no, or the reason it is refused.
    pub fn check(&self, answer: &str) -> (r: Result<bool, String>)
        ensures
            match yes_no_answer(answer@) {
                Ok(v) => r == Ok::<bool, String>(v),
                Err(reason) => r matches Err(s) && s@ == reason,
            },
    {
        let a = chars_of(answer);
        if chars_lower_eq(&a, "y") || chars_lower_eq(&a, "yes") {
            Ok(true)
        } else if chars_lower_eq(&a, "n") || chars_lower_eq(&a, "no") {
            Ok(false)
        } else {
            Err(owned("Please answer 'Y' or 'N'."))
        }
    }

    /// The next step after the answer `answer`: done with yes or no, or ask
    /// again after writing the reason as a warning.
    pub fn respond(&self, answer: &str) -> (r: ReadStep<bool>)
        ensures
            match yes_no_answer(answer@) {
                Ok(v) => r == ReadStep::Done(v),
                Err(reason) => r matches ReadStep::Retry(lines) && lines@.len() == 1
                    && lines@[0]@ == colored(reason, seq!['3', '3']),
            },
    {
        let checked = self.check(answer);
        read_valid(checked, None)
    }
}

/// A numbered list of choices and the question that picks one of them.
pub struct ChoiceMenu {
    /// The lines to write before asking: the message, then each choice.
    pub lines: Vec<String>,
    /// The question for the number of the choice.
    pub question: IntegerQuestion,
    /// The number of choices.
    pub count: usize,
}

/// The line that offers the choice `label` under the number `number`.
pub open spec fn choice_line(number: nat, label: Seq<char>) -> Seq<char> {
    seq!['['] + decimal(number) + seq![']', ' '] + label
}

/// Builds the menu that offers `labels`, numbered from one, after `message`,
/// and asks `?` for a number from one to the number of choices.
pub fn read_choice(message: &str, labels: &Vec<String>) -> (m: ChoiceMenu)
    ensures
        m.lines@.len() == labels@.len() + 1,
        m.lines@[0]@ == message@,
        forall|i: int|
            0 <= i < labels@.len() ==> (#[trigger] m.lines@[i + 1])@ == choice_line(
                (i + 1) as nat,
                labels@[i]@,
            ),
        m.question.prompt@ == integer_prompt("?"@, Some(1usize), Some(labels@.len() as usize)),
        m.question.elaboration@ == integer_elaboration(Some(1usize), Some(labels@.len() as usize)),
        m.question.min == Some(1usize),
        m.question.max == Some(labels@.len() as usize),
        m.count == labels@.len(),
{
    let mut lines: Vec<String> = Vec::new();
    lines.push(owned(message));
    let mut i: usize = 0;
    while i < labels.len()
        invariant
            i <= labels@.len(),
            lines@.len() == i + 1,
            lines@[0]@ == message@,
            forall|j: int|
                0 <= j < i ==> (#[trigger] lines@[j + 1])@ == choice_line(
                    (j + 1) as nat,
                    labels@[j]@,
                ),
        decreases labels@.len() - i,
    {
        let mut line: Vec<char> = Vec::new();
        line.push('[');
        push_usize(&mut line, i + 1);
        line.push(']');
        line.push(' ');
        push_str(&mut line, labels[i].as_str());
        assert(line@ =~= choice_line((i + 1) as nat, labels@[i as int]@));
        lines.push(string_of(&line));
        i = i + 1;
    }
    let question = read_integer("?", Some(1), Some(labels.len()));
    ChoiceMenu { lines, question, count: labels.len() }
}

impl ChoiceMenu {
    /// The position in the list of the choice numbered `number`, if there is
    /// one.
    pub fn index(&self, number: usize) -> (r: Option<usize>)
        ensures
            r == (if 1 <= number <= self.count {
                Some((number - 1) as usize)
            } else {
                None::<usize>
            }),
    {
        if 1 <= number && number <= self.count {
            Some(number - 1)
        } else {
            None
        }
    }
}

/// A question that must be answered yes for the publishing to go on: when the
/// answer is no, it stops with the refusal as its error.
#[derive(Debug)]
pub struct Confirmation {
    /// The yes-or-no question.
    pub question: String,
    /// The error when the answer is no.
    pub refusal: String,
}

impl View for Confirmation {
    type V = (Seq<char>, Seq<char>);

    open spec fn view(&self) -> (Seq<char>, Seq<char>) {
        (self.question@, self.refusal@)
    }
}

/// Builds the confirmation that asks `question` and stops with `refusal`.
pub fn confirmation(question: String, refusal: &str) -> (r: Confirmation)
    ensures
        r.question@ == question@,
        r.refusal@ == refusal@,
{
    Confirmation { question, refusal: owned(refusal) }
}

} // verus!
