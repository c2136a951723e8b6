//! Chat lines and the commands they stand for.
//!
//! A line typed by a client is trimmed and then read as one of six commands.
//! Only an exact word (`/quit`, `/help`, `/who`) or the prefix `/action `
//! makes a command; everything else, however much it looks like one, is chat
//! text.

use vstd::prelude::*;
use vstd::std_specs::iter::IteratorSpec;
use vstd::string::StrSliceExecFns;
use vstd::utf8::encode_utf8;

verus! {

broadcast use vstd::string::group_string_axioms;

/// What a chat line asks for. The text of an action or a message borrows from
/// the line it was parsed from.
#[derive(Debug, Clone, Copy)]
pub enum Command<'a> {
    Empty,
    Quit,
    Help,
    Who,
    Action(&'a str),
    Msg(&'a str),
}

/// The mathematical value of a [`Command`]: the same six cases over character
/// sequences.
pub enum CommandText {
    Empty,
    Quit,
    Help,
    Who,
    Action(Seq<char>),
    Msg(Seq<char>),
}

impl<'a> View for Command<'a> {
    type V = CommandText;

    open spec fn view(&self) -> CommandText {
        match *self {
            Command::Empty => CommandText::Empty,
            Command::Quit => CommandText::Quit,
            Command::Help => CommandText::Help,
            Command::Who => CommandText::Who,
            Command::Action(text) => CommandText::Action(text@),
            Command::Msg(text) => CommandText::Msg(text@),
        }
    }
}

/// The block of text sent in answer to `/help`.
pub const COMMAND_HELP: &'static str = "
/quit             Leave the server
/help             Show this message
/who              List online users
/action <action>  Broadcast an action, e.g. /action waves

[anything else]   Send a regular message

";

/// What counts as whitespace: the characters with the Unicode property
/// `White_Space`, which the standard library trims too.
pub open spec fn is_whitespace(c: char) -> bool {
    let u = c as u32;
    ||| 0x09 <= u <= 0x0d
    ||| u == 0x20
    ||| u == 0x85
    ||| u == 0xa0
    ||| u == 0x1680
    ||| 0x2000 <= u <= 0x200a
    ||| u == 0x2028
    ||| u == 0x2029
    ||| u == 0x202f
    ||| u == 0x205f
    ||| u == 0x3000
}

/// `s` without its leading whitespace.
pub open spec fn trim_start(s: Seq<char>) -> Seq<char>
    decreases s.len(),
{
    if s.len() > 0 && is_whitespace(s.first()) {
        trim_start(s.drop_first())
    } else {
        s
    }
}

/// `s` without its trailing whitespace.
pub open spec fn trim_end(s: Seq<char>) -> Seq<char>
    decreases s.len(),
{
    if s.len() > 0 && is_whitespace(s.last()) {
        trim_end(s.drop_last())
    } else {
        s
    }
}

/// `s` without leading and trailing whitespace.
pub open spec fn trim(s: Seq<char>) -> Seq<char> {
    trim_end(trim_start(s))
}

/// The prefix that introduces an action. The space belongs to it.
pub open spec fn action_prefix() -> Seq<char> {
    "/action "@
}

/// The command that a trimmed line stands for.
pub open spec fn classify_text(line: Seq<char>) -> CommandText {
    if line.len() == 0 {
        CommandText::Empty
    } else if line == "/quit"@ {
        CommandText::Quit
    } else if line == "/help"@ {
        CommandText::Help
    } else if line == "/who"@ {
        CommandText::Who
    } else if action_prefix().is_prefix_of(line) {
        CommandText::Action(line.skip(action_prefix().len() as int))
    } else {
        CommandText::Msg(line)
    }
}

/// The command that a raw line stands for.
pub open spec fn parse_text(input: Seq<char>) -> CommandText {
    classify_text(trim(input))
}

/// How many characters at the front of `s` are whitespace.
pub open spec fn leading_whitespace(s: Seq<char>) -> nat
    decreases s.len(),
{
    if s.len() > 0 && is_whitespace(s.first()) {
        1 + leading_whitespace(s.drop_first())
    } else {
        0
    }
}

/// How many characters at the back of `s` are whitespace.
pub open spec fn trailing_whitespace(s: Seq<char>) -> nat
    decreases s.len(),
{
    if s.len() > 0 && is_whitespace(s.last()) {
        1 + trailing_whitespace(s.drop_last())
    } else {
        0
    }
}

/// Trimming at the front cuts off a run of whitespace, the whole run and
/// nothing else.
pub proof fn lemma_trim_start(s: Seq<char>)
    ensures
        leading_whitespace(s) <= s.len(),
        trim_start(s) == s.skip(leading_whitespace(s) as int),
        forall|i: int| 0 <= i < leading_whitespace(s) ==> is_whitespace(#[trigger] s[i]),
        trim_start(s).len() > 0 ==> !is_whitespace(trim_start(s).first()),
    decreases s.len(),
{
    if s.len() > 0 && is_whitespace(s.first()) {
        let rest = s.drop_first();
        lemma_trim_start(rest);
        let k = leading_whitespace(rest);
        assert(rest.skip(k as int) =~= s.skip(k as int + 1));
        assert forall|i: int| 0 <= i < leading_whitespace(s) implies is_whitespace(
            #[trigger] s[i],
        ) by {
            if i > 0 {
                assert(s[i] == rest[i - 1]);
            }
        }
    } else {
        assert(s.skip(0) =~= s);
    }
}

/// Trimming at the back cuts off a run of whitespace, the whole run and
/// nothing else.
pub proof fn lemma_trim_end(s: Seq<char>)
    ensures
        trailing_whitespace(s) <= s.len(),
        trim_end(s) == s.take(s.len() - trailing_whitespace(s)),
        forall|i: int|
            s.len() - trailing_whitespace(s) <= i < s.len() ==> is_whitespace(#[trigger] s[i]),
        trim_end(s).len() > 0 ==> !is_whitespace(trim_end(s).last()),
    decreases s.len(),
{
    if s.len() > 0 && is_whitespace(s.last()) {
        let rest = s.drop_last();
        lemma_trim_end(rest);
        let k = trailing_whitespace(rest);
        assert(rest.take(rest.len() - k) =~= s.take(s.len() - (k + 1)));
        assert forall|i: int| s.len() - trailing_whitespace(s) <= i < s.len() implies is_whitespace(
            #[trigger] s[i],
        ) by {
            if i < s.len() - 1 {
                assert(s[i] == rest[i]);
            }
        }
    } else {
        assert(s.take(s.len() as int) =~= s);
    }
}

/// A trimmed line is a piece of the line, and neither starts nor ends with
/// whitespace.
pub proof fn lemma_trim_is_tight(s: Seq<char>)
    ensures
        trim(s).len() <= s.len(),
        trim(s).len() > 0 ==> !is_whitespace(trim(s).first()) && !is_whitespace(trim(s).last()),
{
    lemma_trim_start(s);
    let front = trim_start(s);
    lemma_trim_end(front);
    if trim(s).len() > 0 {
        assert(trim(s).first() == front.first());
    }
}

/// Trimming twice is trimming once, so a line and its trimmed form are the
/// same command.
pub proof fn lemma_trim_idempotent(s: Seq<char>)
    ensures
        trim(trim(s)) == trim(s),
        parse_text(trim(s)) == parse_text(s),
{
    lemma_trim_is_tight(s);
    let t = trim(s);
    assert(trim_start(t) == t);
    assert(trim_end(t) == t);
}

/// A line trims to nothing exactly if it holds whitespace only.
pub proof fn lemma_blank_line(s: Seq<char>)
    ensures
        trim(s).len() == 0 <==> (forall|i: int|
            0 <= i < s.len() ==> is_whitespace(#[trigger] s[i])),
        trim(s).len() == 0 <==> parse_text(s) is Empty,
{
    lemma_trim_start(s);
    let front = trim_start(s);
    lemma_trim_end(front);
    let k = leading_whitespace(s) as int;
    if trim(s).len() == 0 {
        if front.len() > 0 {
            assert(is_whitespace(front[0]));
        }
        assert(front.len() == 0);
        assert(k == s.len());
    }
    if forall|i: int| 0 <= i < s.len() ==> is_whitespace(#[trigger] s[i]) {
        if front.len() > 0 {
            assert(front.first() == s[k]);
        }
    }
}

/// The text of an action or a message is never empty, and a message is the
/// whole trimmed line.
pub proof fn lemma_parse_keeps_text(s: Seq<char>)
    ensures
        match parse_text(s) {
            CommandText::Action(text) => text.len() > 0 && trim(s) == action_prefix() + text,
            CommandText::Msg(text) => text.len() > 0 && text == trim(s),
            _ => true,
        },
{
    lemma_trim_is_tight(s);
    let t = trim(s);
    if parse_text(s) is Action {
        reveal_strlit("/action ");
        let text = t.skip(action_prefix().len() as int);
        assert(t =~= action_prefix() + text);
        if text.len() == 0 {
            assert(t.last() == ' ');
        }
    }
}

/// The trimmed form of a line is the stretch from its first character that
/// is no whitespace to its last.
pub proof fn lemma_trim_between(s: Seq<char>, start: int, end: int)
    requires
        0 <= start < end <= s.len(),
        forall|j: int| 0 <= j < start ==> is_whitespace(#[trigger] s[j]),
        forall|j: int| end <= j < s.len() ==> is_whitespace(#[trigger] s[j]),
        !is_whitespace(s[start]),
        !is_whitespace(s[end - 1]),
    ensures
        trim(s) == s.subrange(start, end),
{
    lemma_trim_start(s);
    let lead = leading_whitespace(s) as int;
    if lead > start {
        assert(is_whitespace(s[start]));
    }
    if lead < start {
        assert(trim_start(s).first() == s[lead]);
        assert(is_whitespace(s[lead]));
    }
    let front = trim_start(s);
    lemma_trim_end(front);
    let cut = front.len() - trailing_whitespace(front);
    if cut < end - start {
        assert(front[end - start - 1] == s[end - 1]);
        assert(is_whitespace(front[end - start - 1]));
    }
    if cut > end - start {
        assert(trim_end(front).last() == front[cut - 1]);
        assert(front[cut - 1] == s[start + cut - 1]);
        assert(is_whitespace(s[start + cut - 1]));
    }
    assert(front.take(cut) =~= s.subrange(start, end));
}

/// A text has no more characters than bytes.
pub proof fn lemma_chars_fit_in_bytes(chars: Seq<char>)
    ensures
        chars.len() <= encode_utf8(chars).len(),
    decreases chars.len(),
{
    if chars.len() > 0 {
        lemma_chars_fit_in_bytes(chars.drop_first());
    }
}

/// Whether `c` is whitespace.
pub fn is_blank(c: char) -> (blank: bool)
    ensures
        blank == is_whitespace(c),
{
    let u: u32 = c as u32;
    (0x09 <= u && u <= 0x0d) || u == 0x20 || u == 0x85 || u == 0xa0 || u == 0x1680 || (0x2000 <= u
        && u <= 0x200a) || u == 0x2028 || u == 0x2029 || u == 0x202f || u == 0x205f || u == 0x3000
}

/// The slice of `s` that is left when the whitespace at its front and at
/// its back is taken away.
pub(crate) fn trim_str<'a>(s: &'a str) -> (trimmed: &'a str)
    ensures
        trimmed@ == trim(s@),
{
    proof {
        lemma_chars_fit_in_bytes(s@);
    }
    let bytes = s.as_bytes().len();
    let mut rest = s.chars();
    let mut i: usize = 0;
    let mut start: usize = 0;
    let mut end: usize = 0;
    loop
        invariant
            rest.obeys_prophetic_iter_laws(),
            rest.remaining() == s@.skip(i as int),
            s@.len() <= bytes,
            end <= i <= s@.len(),
            forall|j: int| end <= j < i ==> is_whitespace(#[trigger] s@[j]),
            end > 0 ==> {
                &&& start < end
                &&& forall|j: int| 0 <= j < start ==> is_whitespace(#[trigger] s@[j])
                &&& !is_whitespace(s@[start as int])
                &&& !is_whitespace(s@[end - 1])
            },
        ensures
            i == s@.len(),
        decreases s@.len() - i,
    {
        match rest.next() {
            None => {
                assert(s@.skip(i as int).len() == 0);
                break;
            },
            Some(c) => {
                assert(c == s@[i as int]);
                if !is_blank(c) {
                    if end == 0 {
                        start = i;
                    }
                    end = i + 1;
                }
                i = i + 1;
            },
        }
    }
    proof {
        if end > 0 {
            lemma_trim_between(s@, start as int, end as int);
        } else {
            lemma_blank_line(s@);
            assert(s@.subrange(0, 0) =~= Seq::<char>::empty());
            assert(trim(s@) =~= Seq::<char>::empty());
        }
    }
    if end > 0 {
        s.substring_char(start, end)
    } else {
        s.substring_char(0, 0)
    }
}

/// Where `s` starts with `prefix`, the rest of `s`; otherwise nothing.
pub(crate) fn strip_prefix_str<'a>(s: &'a str, prefix: &str) -> (rest: Option<&'a str>)
    ensures
        match rest {
            Some(r) => prefix@.is_prefix_of(s@) && r@ == s@.skip(prefix@.len() as int),
            None => !prefix@.is_prefix_of(s@),
        },
{
    proof {
        lemma_chars_fit_in_bytes(s@);
    }
    let bytes = s.as_bytes().len();
    let mut ours = s.chars();
    let mut theirs = prefix.chars();
    let mut matched: usize = 0;
    loop
        invariant
            ours.obeys_prophetic_iter_laws(),
            theirs.obeys_prophetic_iter_laws(),
            ours.remaining() == s@.skip(matched as int),
            theirs.remaining() == prefix@.skip(matched as int),
            s@.len() <= bytes,
            matched <= s@.len(),
            matched <= prefix@.len(),
            s@.take(matched as int) == prefix@.take(matched as int),
        ensures
            matched == prefix@.len(),
        decreases prefix@.len() - matched,
    {
        match theirs.next() {
            None => {
                assert(prefix@.skip(matched as int).len() == 0);
                break;
            },
            Some(theirs_next) => match ours.next() {
                None => {
                    return None;
                },
                Some(ours_next) => {
                    if ours_next != theirs_next {
                        proof {
                            if prefix@.is_prefix_of(s@) {
                                assert(s@.subrange(0, prefix@.len() as int)[matched as int]
                                    == prefix@[matched as int]);
                            }
                        }
                        return None;
                    }
                    proof {
                        assert(s@.take(matched + 1) =~= s@.take(matched as int).push(
                            s@[matched as int],
                        ));
                        assert(prefix@.take(matched + 1) =~= prefix@.take(matched as int).push(
                            prefix@[matched as int],
                        ));
                    }
                    matched = matched + 1;
                },
            },
        }
    }
    let mut total: usize = matched;
    loop
        invariant
            ours.obeys_prophetic_iter_laws(),
            ours.remaining() == s@.skip(total as int),
            s@.len() <= bytes,
            matched <= total <= s@.len(),
        ensures
            total == s@.len(),
        decreases s@.len() - total,
    {
        match ours.next() {
            None => {
                assert(s@.skip(total as int).len() == 0);
                break;
            },
            Some(_) => {
                total = total + 1;
            },
        }
    }
    proof {
        assert(prefix@.take(matched as int) =~= prefix@);
        assert(s@.take(matched as int) =~= s@.subrange(0, prefix@.len() as int));
        assert(s@.subrange(matched as int, total as int) =~= s@.skip(prefix@.len() as int));
    }
    Some(s.substring_char(matched, total))
}

/// Whether two strings hold the same characters.
pub(crate) fn same_text(s: &str, word: &str) -> (same: bool)
    ensures
        same == (s@ == word@),
{
    let mut ours = s.chars();
    let mut theirs = word.chars();
    let ghost mut matched: int = 0;
    loop
        invariant
            ours.obeys_prophetic_iter_laws(),
            theirs.obeys_prophetic_iter_laws(),
            ours.remaining() == s@.skip(matched),
            theirs.remaining() == word@.skip(matched),
            0 <= matched <= s@.len(),
            matched <= word@.len(),
            s@.take(matched) == word@.take(matched),
        decreases s@.len() - matched,
    {
        match ours.next() {
            None => {
                let same = theirs.next().is_none();
                proof {
                    if same {
                        assert(s@.take(matched) =~= s@);
                        assert(word@.take(matched) =~= word@);
                    }
                }
                return same;
            },
            Some(ours_next) => match theirs.next() {
                None => {
                    return false;
                },
                Some(theirs_next) => {
                    if ours_next != theirs_next {
                        assert(s@[matched] != word@[matched]);
                        return false;
                    }
                    proof {
                        assert(s@.take(matched + 1) =~= s@.take(matched).push(s@[matched]));
                        assert(word@.take(matched + 1) =~= word@.take(matched).push(
                            word@[matched],
                        ));
                        matched = matched + 1;
                    }
                },
            },
        }
    }
}

impl<'a> Command<'a> {
    /// Reads a raw line: trims it, then classifies what is left.
    pub fn parse(input: &'a str) -> (command: Self)
        ensures
            command@ == parse_text(input@),
    {
        Self::classify(trim_str(input))
    }

    /// Reads a line that is already trimmed. The empty line is `Empty`; the
    /// three bare words are `Quit`, `Help` and `Who`; a line that starts with
    /// `/action ` is an `Action` with the rest of the line, inner spaces kept;
    /// any other line is a `Msg` with the whole line.
    pub fn classify(line: &'a str) -> (command: Self)
        ensures
            command@ == classify_text(line@),
    {
        if line.is_empty() {
            Command::Empty
        } else if same_text(line, "/quit") {
            Command::Quit
        } else if same_text(line, "/help") {
            Command::Help
        } else if same_text(line, "/who") {
            Command::Who
        } else {
            match strip_prefix_str(line, "/action ") {
                Some(action) => Command::Action(action),
                None => Command::Msg(line),
            }
        }
    }
}

} // verus!
