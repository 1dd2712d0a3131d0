//! Commands typed in alpha mode.
use vstd::prelude::*;
use crate::action::Action;
use crate::error::{CalcError, ErrorModel};
use crate::text::{chars_of, string_of};

verus! {

/// The characters with the Unicode `White_Space` property (PropList.txt):
/// tab to carriage return, space, next line, no-break space, Ogham space
/// mark, the spaces from en quad to hair space, line and paragraph
/// separators, narrow no-break space, medium mathematical space and
/// ideographic space.
pub open spec fn is_white_space(c: char) -> bool {
    let n = c as u32;
    ||| 0x09 <= n <= 0x0d
    ||| n == 0x20
    ||| n == 0x85
    ||| n == 0xa0
    ||| n == 0x1680
    ||| 0x2000 <= n <= 0x200a
    ||| n == 0x2028
    ||| n == 0x2029
    ||| n == 0x202f
    ||| n == 0x205f
    ||| n == 0x3000
}

/// std's `char::is_whitespace`: claimed, as its documentation says, to hold
/// exactly of the characters with the Unicode `White_Space` property.
#[verifier::external_body]
fn char_is_whitespace(c: char) -> (r: bool)
    ensures
        r == is_white_space(c),
{
    c.is_whitespace()
}

/// The maximal runs of non-whitespace characters of `s`, in order.
pub open spec fn words(s: Seq<char>) -> Seq<Seq<char>>
    decreases s.len(),
{
    if s.len() == 0 {
        Seq::empty()
    } else {
        let w = words(s.drop_last());
        let c = s.last();
        if is_white_space(c) {
            w
        } else if s.len() >= 2 && !is_white_space(s[s.len() - 2]) {
            w.drop_last().push(w.last().push(c))
        } else {
            w.push(seq![c])
        }
    }
}

pub open spec fn store_word() -> Seq<char> {
    seq!['S', 'T', 'O', 'R', 'E']
}

pub open spec fn recall_word() -> Seq<char> {
    seq!['R', 'C', 'L']
}

/// The command a text names.
pub enum CommandModel {
    Store(Seq<char>),
    Recall(Seq<char>),
    Unknown,
}

/// `name STORE` stores to register `name`, `name RCL` recalls it; the words
/// are separated by whitespace.
pub open spec fn command_spec(input: Seq<char>) -> CommandModel {
    let w = words(input);
    if w.len() == 2 && w[1] == store_word() {
        CommandModel::Store(w[0])
    } else if w.len() == 2 && w[1] == recall_word() {
        CommandModel::Recall(w[0])
    } else {
        CommandModel::Unknown
    }
}

pub open spec fn words_model(v: Seq<Vec<char>>) -> Seq<Seq<char>> {
    v.map_values(|w: Vec<char>| w@)
}

/// Splits `s` into its whitespace-separated words.
fn split_words(s: &Vec<char>) -> (r: Vec<Vec<char>>)
    ensures
        words_model(r@) == words(s@),
{
    let mut out: Vec<Vec<char>> = Vec::new();
    let n = s.len();
    for i in 0..n
        invariant
            n == s@.len(),
            words_model(out@) == words(s@.take(i as int)),
            i > 0 && !is_white_space(s@[i - 1]) ==> out@.len() > 0,
    {
        let c = s[i];
        let ghost prefix = s@.take(i + 1);
        assert(prefix.drop_last() =~= s@.take(i as int));
        if char_is_whitespace(c) {
        } else if i > 0 && !char_is_whitespace(s[i - 1]) {
            let ghost before = words_model(out@);
            let mut last = out.pop().unwrap();
            last.push(c);
            out.push(last);
            assert(words_model(out@) =~= before.drop_last().push(before.last().push(c)));
        } else {
            let ghost before = words_model(out@);
            let mut word: Vec<char> = Vec::new();
            word.push(c);
            out.push(word);
            assert(words_model(out@) =~= before.push(seq![c]));
        }
    }
    assert(s@.take(n as int) =~= s@);
    out
}

fn same_chars(a: &Vec<char>, b: &[char]) -> (r: bool)
    ensures
        r == (a@ == b@),
{
    if a.len() != b.len() {
        return false;
    }
    let n = a.len();
    for i in 0..n
        invariant
            n == a@.len(),
            n == b@.len(),
            forall|j: int| 0 <= j < i ==> a@[j] == b@[j],
    {
        if a[i] != b[i] {
            return false;
        }
    }
    assert(a@ =~= b@);
    true
}

/// Parses a command typed in alpha mode.
pub fn parse_command(input: &str) -> (r: Result<Action, CalcError>)
    ensures
        match command_spec(input@) {
            CommandModel::Store(name) => r matches Ok(Action::StoreRegister(n)) && n@ == name,
            CommandModel::Recall(name) => r matches Ok(Action::RecallRegister(n)) && n@ == name,
            CommandModel::Unknown => r matches Err(e) && e@ == ErrorModel::InvalidInput(
                "Unknown command: "@ + input@,
            ),
        },
{
    let chars = chars_of(input);
    let parts = split_words(&chars);
    if parts.len() == 2 {
        let store = ['S', 'T', 'O', 'R', 'E'];
        let recall = ['R', 'C', 'L'];
        assert(store@ == store_word());
        assert(recall@ == recall_word());
        if same_chars(&parts[1], &store) {
            return Ok(Action::StoreRegister(string_of(parts[0].as_slice())));
        }
        if same_chars(&parts[1], &recall) {
            return Ok(Action::RecallRegister(string_of(parts[0].as_slice())));
        }
    }
    Err(CalcError::InvalidInput(String::from_str("Unknown command: ").concat(input)))
}

} // verus!
