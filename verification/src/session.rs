//! The interactive session: what a line means, and the states the session
//! moves through while lines come in.
//!
//! The caller owns the terminal. In `Prompting` it shows the prompt and reads
//! a line, which it hands to `receive`; in `Dispatching` it calls `dispatch`
//! and carries out the reply; in `Terminated` it stops.

use crate::expression::{
    create_expression, lemma_neutral_is_operand, lemma_square_root_ignores_second, neutral,
    parse, Expression, ExpressionView,
};
use crate::number::{is_operand, lemma_operand_is_solid};
use crate::operation::{operation_of, operator_of, Operation};
use crate::words::{lemma_words_joined, lemma_words_of_word, process_input, words};
use vstd::prelude::*;

verus! {

/// The line that ends the session.
pub const EXIT: &'static str = "exit";

/// The line that asks for the information text.
pub const INFO: &'static str = "info";

/// The prompt shown before each line is read.
pub const PROMPT: &'static str = "calc.rs $> ";

/// What the session answers to a line.
#[derive(Debug, PartialEq, Eq)]
pub enum Reply {
    /// Nothing at all: the line was empty.
    Nothing,
    /// The goodbye message and a blank line; the session is over.
    Goodbye,
    /// The information text.
    Info,
    /// The value of this expression.
    Calculate(Expression),
    /// The error message: the line is neither a command nor an expression.
    Error,
}

/// A reply as a mathematical value.
pub enum ReplyView {
    Nothing,
    Goodbye,
    Info,
    Calculate(ExpressionView),
    Error,
}

impl View for Reply {
    type V = ReplyView;

    open spec fn view(&self) -> ReplyView {
        match self {
            Reply::Nothing => ReplyView::Nothing,
            Reply::Goodbye => ReplyView::Goodbye,
            Reply::Info => ReplyView::Info,
            Reply::Calculate(e) => ReplyView::Calculate(e@),
            Reply::Error => ReplyView::Error,
        }
    }
}

/// The three slots that the words of a line fill: the first three words,
/// and the empty text where a word is missing.
pub open spec fn slots(tokens: Seq<Seq<char>>) -> Seq<Seq<char>> {
    Seq::new(
        3,
        |i: int|
            if i < tokens.len() {
                tokens[i]
            } else {
                Seq::empty()
            },
    )
}

/// The reply to a line.
///
/// The empty line gets no answer, `exit` and `info` are commands, and they
/// are so only when they are the whole line. Any other line is split into
/// words, the words fill three slots, and the slots either hold an
/// expression or the line is in error.
pub open spec fn reaction(line: Seq<char>) -> ReplyView {
    if line.len() == 0 {
        ReplyView::Nothing
    } else if line == EXIT@ {
        ReplyView::Goodbye
    } else if line == INFO@ {
        ReplyView::Info
    } else {
        match parse(slots(words(line))) {
            Some(e) => ReplyView::Calculate(e),
            None => ReplyView::Error,
        }
    }
}

/// Cuts `tokens` down to three slots, or fills it up to three with empty ones.
pub fn into_slots(tokens: Vec<String>) -> (filled: Vec<String>)
    ensures
        filled.deep_view() == slots(tokens.deep_view()),
{
    let mut filled = tokens;
    filled.truncate(3);
    while filled.len() < 3
        invariant
            filled.len() <= 3,
            tokens.len() <= filled.len() || filled.len() == 3,
            forall|i: int|
                0 <= i < filled.len() ==> #[trigger] filled@[i]@ == slots(tokens.deep_view())[i],
        decreases 3 - filled.len(),
    {
        filled.push(String::new());
    }
    assert(filled.deep_view() =~= slots(tokens.deep_view()));
    filled
}

/// Decides what to answer to `line`.
pub fn respond(line: String) -> (reply: Reply)
    ensures
        reply@ == reaction(line@),
        reply matches Reply::Calculate(e) ==> e@.well_formed(),
{
    if line.as_str().is_empty() {
        Reply::Nothing
    } else if line == String::from_str(EXIT) {
        Reply::Goodbye
    } else if line == String::from_str(INFO) {
        Reply::Info
    } else {
        match create_expression(into_slots(process_input(line))) {
            Some(expression) => Reply::Calculate(expression),
            None => Reply::Error,
        }
    }
}

/// Where the session stands.
#[derive(Debug, PartialEq, Eq)]
pub enum State {
    /// The prompt is due and a line is to be read.
    Prompting,
    /// This line was read and awaits its answer.
    Dispatching(String),
    /// The session is over.
    Terminated,
}

/// A state as a mathematical value.
pub enum StateView {
    Prompting,
    Dispatching(Seq<char>),
    Terminated,
}

impl View for State {
    type V = StateView;

    open spec fn view(&self) -> StateView {
        match self {
            State::Prompting => StateView::Prompting,
            State::Dispatching(line) => StateView::Dispatching(line@),
            State::Terminated => StateView::Terminated,
        }
    }
}

/// The view of what was read: a line, or nothing when the input has ended.
pub open spec fn input_view(input: Option<String>) -> Option<Seq<char>> {
    match input {
        Some(line) => Some(line@),
        None => None,
    }
}

impl StateView {
    /// The state after the caller has read `input`. The end of the input
    /// counts as the line `exit`. Only `Prompting` reads.
    pub open spec fn received(self, input: Option<Seq<char>>) -> StateView {
        match self {
            StateView::Prompting => StateView::Dispatching(
                match input {
                    Some(line) => line,
                    None => EXIT@,
                },
            ),
            other => other,
        }
    }

    /// The state after the line at hand was answered, and the answer. Only
    /// `Dispatching` answers, and only the reply `Goodbye` ends the session.
    pub open spec fn dispatched(self) -> (StateView, ReplyView) {
        match self {
            StateView::Dispatching(line) => (
                if reaction(line) == ReplyView::Goodbye {
                    StateView::Terminated
                } else {
                    StateView::Prompting
                },
                reaction(line),
            ),
            other => (other, ReplyView::Nothing),
        }
    }

    /// One turn of the session: read, then answer.
    pub open spec fn turn(self, input: Option<Seq<char>>) -> (StateView, ReplyView) {
        self.received(input).dispatched()
    }
}

impl State {
    /// The state in which every session begins.
    pub fn start() -> (state: State)
        ensures
            state@ == StateView::Prompting,
    {
        State::Prompting
    }

    /// Takes in what the caller has read: a line without its line end, or
    /// `None` at the end of the input.
    pub fn receive(self, input: Option<String>) -> (next: State)
        ensures
            next@ == self@.received(input_view(input)),
    {
        match self {
            State::Prompting => match input {
                Some(line) => State::Dispatching(line),
                None => State::Dispatching(String::from_str(EXIT)),
            },
            other => other,
        }
    }

    /// Answers the line at hand.
    pub fn dispatch(self) -> (result: (State, Reply))
        ensures
            (result.0@, result.1@) == self@.dispatched(),
            result.1 matches Reply::Calculate(e) ==> e@.well_formed(),
    {
        match self {
            State::Dispatching(line) => {
                let reply = respond(line);
                match reply {
                    Reply::Goodbye => (State::Terminated, reply),
                    _ => (State::Prompting, reply),
                }
            },
            other => (other, Reply::Nothing),
        }
    }

    /// Whether the session is over.
    pub fn is_terminated(&self) -> (r: bool)
        ensures
            r == (self@ == StateView::Terminated),
    {
        match self {
            State::Terminated => true,
            _ => false,
        }
    }
}

/// The line that stands for an input: the line itself, or `exit` at the
/// end of the input.
pub open spec fn line_of(input: Option<Seq<char>>) -> Seq<char> {
    match input {
        Some(line) => line,
        None => EXIT@,
    }
}

/// The state of a session that began in `Prompting` and has taken one turn
/// for each of `inputs`.
pub open spec fn state_after(inputs: Seq<Option<Seq<char>>>) -> StateView
    decreases inputs.len(),
{
    if inputs.len() == 0 {
        StateView::Prompting
    } else {
        state_after(inputs.drop_last()).turn(inputs.last()).0
    }
}

/// The reply of turn `i` of a session that is fed `inputs`.
pub open spec fn reply_at(inputs: Seq<Option<Seq<char>>>, i: int) -> ReplyView {
    state_after(inputs.take(i)).turn(inputs[i]).1
}

/// Each command is a single word, so that no line of two or more words is
/// a command.
pub proof fn lemma_commands_are_words()
    ensures
        words(EXIT@) == seq![EXIT@],
        words(INFO@) == seq![INFO@],
        EXIT@.len() == 4,
        INFO@.len() == 4,
        EXIT@ != INFO@,
{
    reveal_strlit("exit");
    reveal_strlit("info");
    lemma_words_of_word(EXIT@);
    lemma_words_of_word(INFO@);
    assert(EXIT@[0] != INFO@[0]);
}

/// Only `exit` is answered with the goodbye, and only the goodbye ends the
/// session: after any other line the session prompts again.
pub proof fn lemma_only_exit_terminates(line: Seq<char>)
    ensures
        reaction(line) == ReplyView::Goodbye <==> line == EXIT@,
        StateView::Dispatching(line).dispatched().0 == (if line == EXIT@ {
            StateView::Terminated
        } else {
            StateView::Prompting
        }),
{
    lemma_commands_are_words();
}

/// A line whose words are an operand, an operator and an operand is
/// answered with the expression made of them; where the operator selects
/// the square root, with zero in place of the second operand.
pub proof fn lemma_expression_line(
    line: Seq<char>,
    first: Seq<char>,
    operator: Seq<char>,
    second: Seq<char>,
)
    requires
        words(line) == seq![first, operator, second],
        is_operand(first),
        is_operand(second),
        operator_of(operator) is Some,
    ensures
        reaction(line) == ReplyView::Calculate(
            ExpressionView {
                first,
                operation: operator_of(operator)->0,
                second: if operator_of(operator)->0 == Operation::SquareRoot {
                    neutral()
                } else {
                    second
                },
            },
        ),
{
    lemma_commands_are_words();
    lemma_neutral_is_operand();
    assert(words(Seq::<char>::empty()) == Seq::<Seq<char>>::empty());
    assert(line.len() != 0) by {
        if line.len() == 0 {
            assert(line == Seq::<char>::empty());
        }
    }
    assert(slots(words(line)) == words(line));
}

/// The line written as an operand, a space, an operator symbol, a space and
/// an operand is answered with that expression.
pub proof fn lemma_spaced_expression(first: Seq<char>, symbol: char, second: Seq<char>)
    requires
        is_operand(first),
        is_operand(second),
        operation_of(symbol) is Some,
    ensures
        words(first + seq![' '] + seq![symbol] + seq![' '] + second) == seq![
            first,
            seq![symbol],
            second,
        ],
        reaction(first + seq![' '] + seq![symbol] + seq![' '] + second) == ReplyView::Calculate(
            ExpressionView {
                first,
                operation: operation_of(symbol)->0,
                second: if operation_of(symbol)->0 == Operation::SquareRoot {
                    neutral()
                } else {
                    second
                },
            },
        ),
{
    let operator = seq![symbol];
    let line = first + seq![' '] + operator + seq![' '] + second;
    lemma_operand_is_solid(first);
    lemma_operand_is_solid(second);
    lemma_words_of_word(first);
    lemma_words_of_word(operator);
    lemma_words_of_word(second);
    lemma_words_joined(first, ' ', operator);
    lemma_words_joined(first + seq![' '] + operator, ' ', second);
    assert(seq![first] + seq![operator] + seq![second] == seq![first, operator, second]);
    lemma_expression_line(line, first, operator, second);
}

/// What stands behind the third word of a line is not read: two lines of
/// three or more words that agree on their first three words get the same
/// reply.
pub proof fn lemma_reads_three_words(line: Seq<char>, other: Seq<char>)
    requires
        words(line).len() >= 3,
        words(other).len() >= 3,
        words(line).take(3) == words(other).take(3),
    ensures
        reaction(line) == reaction(other),
{
    lemma_commands_are_words();
    assert(words(Seq::<char>::empty()) == Seq::<Seq<char>>::empty());
    assert(line.len() != 0 && other.len() != 0) by {
        if line.len() == 0 {
            assert(line == Seq::<char>::empty());
        }
        if other.len() == 0 {
            assert(other == Seq::<char>::empty());
        }
    }
    assert(slots(words(line)) == words(line).take(3));
    assert(slots(words(other)) == words(other).take(3));
}

/// A square root reads one operand: two lines that agree on their first
/// two words, the second of which selects the square root, get the same
/// reply, whatever follows.
pub proof fn lemma_square_root_line(line: Seq<char>, other: Seq<char>)
    requires
        words(line).len() >= 2,
        words(other).len() >= 2,
        words(line).take(2) == words(other).take(2),
        operator_of(words(line)[1]) == Some(Operation::SquareRoot),
    ensures
        reaction(line) == reaction(other),
{
    lemma_commands_are_words();
    assert(words(Seq::<char>::empty()) == Seq::<Seq<char>>::empty());
    assert(line.len() != 0 && other.len() != 0) by {
        if line.len() == 0 {
            assert(line == Seq::<char>::empty());
        }
        if other.len() == 0 {
            assert(other == Seq::<char>::empty());
        }
    }
    let a = slots(words(line));
    let b = slots(words(other));
    assert(a[0] == words(line).take(2)[0] && a[1] == words(line).take(2)[1]);
    assert(b[0] == words(other).take(2)[0] && b[1] == words(other).take(2)[1]);
    assert(a == seq![a[0], a[1], a[2]]);
    assert(b == seq![a[0], a[1], b[2]]);
    lemma_square_root_ignores_second(a[0], a[1], a[2], b[2]);
}

/// While no earlier turn has ended the session, the session prompts, and
/// the reply to an input is the reaction to its line: nothing of what came
/// before enters into it.
pub proof fn lemma_reply_depends_on_line_alone(inputs: Seq<Option<Seq<char>>>, i: int)
    requires
        0 <= i < inputs.len(),
        forall|k: int| 0 <= k < i ==> line_of(#[trigger] inputs[k]) != EXIT@,
    ensures
        state_after(inputs.take(i)) == StateView::Prompting,
        reply_at(inputs, i) == reaction(line_of(inputs[i])),
    decreases i,
{
    if i > 0 {
        lemma_reply_depends_on_line_alone(inputs, i - 1);
        lemma_only_exit_terminates(line_of(inputs[i - 1]));
        assert(inputs.take(i).drop_last() == inputs.take(i - 1));
        assert(inputs.take(i).last() == inputs[i - 1]);
    }
}

/// The same line gets the same reply in every turn in which the session
/// still runs.
pub proof fn lemma_same_line_same_reply(inputs: Seq<Option<Seq<char>>>, i: int, j: int)
    requires
        0 <= i < inputs.len(),
        0 <= j < inputs.len(),
        forall|k: int| 0 <= k < i || 0 <= k < j ==> line_of(#[trigger] inputs[k]) != EXIT@,
        inputs[i] == inputs[j],
    ensures
        reply_at(inputs, i) == reply_at(inputs, j),
{
    lemma_reply_depends_on_line_alone(inputs, i);
    lemma_reply_depends_on_line_alone(inputs, j);
}

/// Once the session is over it stays so, and answers nothing.
pub proof fn lemma_terminated_is_final(input: Option<Seq<char>>)
    ensures
        StateView::Terminated.turn(input) == (StateView::Terminated, ReplyView::Nothing),
{
}

} // verus!
