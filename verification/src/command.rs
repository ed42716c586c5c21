//! The commands of the interactive shell: their names, the operations they
//! take, and the hints shown while a line is typed.

use vstd::prelude::*;
use vstd::string::*;
use crate::model::Environment;
use crate::session::Session;
use crate::text::{
    chars_of, has_prefix, is_space, lowercase, lowered, space, space_words, split_whitespace,
    starts_with, trim, trimmed, uppercase, uppered, views,
};

verus! {

/// What a command is about.
#[derive(Debug, PartialEq, Eq, Structural, Clone, Copy)]
pub enum Command {
    Environment,
    Feature,
    Variant,
}

/// A command with one of its operations, or without operation, and the
/// hint that tells what is to follow.
#[derive(Debug, PartialEq)]
pub struct ReplCommand {
    pub cmd: String,
    pub op: Option<String>,
    pub hint: String,
}

/// A hint shown behind the line that is being typed.
#[derive(Debug, PartialEq, Eq, Hash)]
pub struct CommandHint {
    pub display: String,
}

/// Shows hints for the commands it knows.
#[derive(Debug)]
pub struct ReplHinter<'a> {
    pub hints: &'a Vec<ReplCommand>,
}

/// A way to complete the line: what is shown, and what is put in.
#[derive(Debug, PartialEq)]
pub struct Completion {
    pub display: String,
    pub replacement: String,
}

/// Completes the names of commands.
#[derive(Debug, PartialEq)]
pub struct CommandCompleter {
    pub commands: Vec<String>,
}

/// Shows the prompt of the shell.
#[derive(Debug, PartialEq)]
pub struct PromptHighlighter {
    pub env: Option<Environment>,
}

/// The name under which a command is typed.
pub open spec fn command_name(command: Command) -> Seq<char> {
    match command {
        Command::Environment => "environment"@,
        Command::Feature => "feature"@,
        Command::Variant => "variant"@,
    }
}

/// Whether `command` is what the words of a line ask for, where
/// `first_lowered` is the first word in lower case: the first word names
/// the command, whatever its case; a command with an operation wants that
/// operation as the second word, and a command without operation wants no
/// second word.
pub open spec fn matches_words(
    command: ReplCommand,
    first_lowered: Seq<char>,
    words: Seq<Seq<char>>,
) -> bool {
    &&& words.len() >= 1
    &&& first_lowered == command.cmd@
    &&& match command.op {
        Some(op) => words.len() >= 2 && op@ == words[1],
        None => words.len() == 1,
    }
}

/// The position of the white space that follows `k` others from `from`
/// on, or the length of `s` where there are not so many.
pub open spec fn nth_space(s: Seq<char>, k: int, from: int) -> int
    decreases s.len() - from,
{
    if from < 0 || from >= s.len() {
        s.len() as int
    } else if is_space(s[from]) {
        if k <= 0 {
            from
        } else {
            nth_space(s, k - 1, from + 1)
        }
    } else {
        nth_space(s, k, from + 1)
    }
}

/// What is left of the hint of `command` once `count` words were typed:
/// the whole hint as long as no argument was typed, and otherwise what
/// follows the white space behind as many words of the hint as arguments
/// were typed; nothing where the hint has no more words.
pub open spec fn remaining(command: ReplCommand, count: int) -> Seq<char> {
    let skip: int = if command.op is Some {
        2
    } else {
        1
    };
    let hint = command.hint@;
    if count <= skip {
        hint
    } else {
        let at = nth_space(hint, count - skip - 1, 0);
        if at < hint.len() {
            hint.subrange(at + 1, hint.len() as int)
        } else {
            Seq::empty()
        }
    }
}

/// The position of the first command at or after `from` that the words
/// ask for, or the number of commands.
pub open spec fn matching_command(
    commands: Seq<ReplCommand>,
    words: Seq<Seq<char>>,
    from: int,
) -> int
    decreases commands.len() - from,
{
    if from < 0 || from >= commands.len() {
        commands.len() as int
    } else if words.len() >= 1 && matches_words(commands[from], lowered(words[0]), words) {
        from
    } else {
        matching_command(commands, words, from + 1)
    }
}

/// Whether a hint is due: the line is three bytes long or longer, the
/// cursor stands at its end, and a blank was typed last.
pub open spec fn hint_is_due(line: Seq<char>, line_bytes: int, pos: int) -> bool {
    line.len() > 0 && line_bytes >= 3 && pos >= line_bytes && line.last() == ' '
}

/// The hint to show for a line, if any: what is left of the hint of the
/// first command that the words of the line ask for.
pub open spec fn hinted(commands: Seq<ReplCommand>, line: Seq<char>, line_bytes: int, pos: int)
    -> Option<Seq<char>> {
    let words = space_words(line);
    let at = matching_command(commands, words, 0);
    if hint_is_due(line, line_bytes, pos) && at < commands.len() {
        Some(remaining(commands[at], words.len() as int))
    } else {
        None
    }
}

/// A line without words asks for no command.
pub proof fn no_words_no_command(commands: Seq<ReplCommand>, words: Seq<Seq<char>>, from: int)
    requires
        words.len() == 0,
        0 <= from,
    ensures
        matching_command(commands, words, from) == commands.len(),
    decreases commands.len() - from,
{
    if from < commands.len() {
        no_words_no_command(commands, words, from + 1);
    }
}

impl Command {
    /// The name under which the command is typed.
    pub fn to_string(&self) -> (name: String)
        ensures
            name@ == command_name(*self),
    {
        match self {
            Command::Environment => String::from_str("environment"),
            Command::Feature => String::from_str("feature"),
            Command::Variant => String::from_str("variant"),
        }
    }

    /// All commands, in the order in which they are offered.
    pub fn iter() -> (all: Vec<Command>)
        ensures
            all@ == seq![Command::Environment, Command::Feature, Command::Variant],
    {
        let mut all: Vec<Command> = Vec::new();
        all.push(Command::Environment);
        all.push(Command::Feature);
        all.push(Command::Variant);
        assert(all@ =~= seq![Command::Environment, Command::Feature, Command::Variant]);
        all
    }

    /// This command with the operation `op`.
    pub fn op(&self, op: &str, hint: &str) -> (command: ReplCommand)
        ensures
            command.cmd@ == command_name(*self),
            command.op is Some && command.op->0@ == op@,
            command.hint@ == hint@,
    {
        ReplCommand {
            cmd: self.to_string(),
            op: Some(String::from_str(op)),
            hint: String::from_str(hint),
        }
    }

    /// This command without operation.
    pub fn no_op(&self, hint: &str) -> (command: ReplCommand)
        ensures
            command.cmd@ == command_name(*self),
            command.op is None,
            command.hint@ == hint@,
    {
        ReplCommand { cmd: self.to_string(), op: None, hint: String::from_str(hint) }
    }
}

impl ReplCommand {
    /// Whether this command is what `slices` ask for, where
    /// `first_lowered` is the first of them in lower case.
    pub fn matches_lowered(&self, first_lowered: &str, slices: &[&str]) -> (r: bool)
        ensures
            r == matches_words(*self, first_lowered@, views(slices@)),
    {
        if slices.len() == 0 {
            return false;
        }
        if !crate::text::same_text(first_lowered, self.cmd.as_str()) {
            return false;
        }
        match &self.op {
            Some(op) => {
                if slices.len() >= 2 {
                    let second: &str = slices[1];
                    assert(views(slices@)[1] == second@);
                    crate::text::same_text(op.as_str(), second)
                } else {
                    false
                }
            },
            None => slices.len() == 1,
        }
    }

    /// Whether this command is what `slices` ask for: a command, then an
    /// operation, then arguments.
    pub fn matches_slices(&self, slices: &[&str]) -> (r: bool)
        ensures
            r == (slices@.len() >= 1 && matches_words(
                *self,
                lowered(slices@[0]@),
                views(slices@),
            )),
    {
        if slices.len() == 0 {
            return false;
        }
        let first: &str = slices[0];
        let first_lowered = lowercase(first);
        self.matches_lowered(first_lowered.as_str(), slices)
    }

    /// What is left of the hint once `slices` were typed.
    pub fn remaining_hint(&self, slices: &[&str]) -> (rest: &str)
        ensures
            rest@ == remaining(*self, slices@.len() as int),
    {
        let skip: usize = match self.op {
            Some(_) => 2,
            None => 1,
        };
        if slices.len() <= skip {
            return self.hint.as_str();
        }
        let hint = self.hint.as_str();
        let chars = chars_of(hint);
        let len: usize = chars.len();
        let mut left: usize = slices.len() - skip - 1;
        let mut at: usize = 0;
        while at < len && !(space(chars[at]) && left == 0)
            invariant
                chars@ == hint@,
                len == hint@.len(),
                at <= len,
                nth_space(hint@, slices@.len() - skip - 1, 0) == nth_space(
                    hint@,
                    left as int,
                    at as int,
                ),
            decreases len - at,
        {
            if space(chars[at]) {
                left = left - 1;
            }
            at = at + 1;
        }
        if at < len {
            hint.substring_char(at + 1, len)
        } else {
            let empty = "";
            proof {
                reveal_strlit("");
                assert(empty@ =~= Seq::<char>::empty());
            }
            empty
        }
    }
}

impl CommandHint {
    /// The text of the hint.
    pub fn display(&self) -> (text: &str)
        ensures
            text@ == self.display@,
    {
        self.display.as_str()
    }

    /// The part of the hint that completes the line: none.
    pub fn completion(&self) -> (text: Option<&str>)
        ensures
            text is None,
    {
        None
    }
}

impl<'a> ReplHinter<'a> {
    /// A hinter for `hints`.
    pub fn new(hints: &'a Vec<ReplCommand>) -> (hinter: ReplHinter<'a>)
        ensures
            hinter.hints == hints,
    {
        ReplHinter { hints }
    }

    /// The hint to show for `line` with the cursor at the byte `pos`, if any.
    pub fn hint(&self, line: &str, pos: usize) -> (r: Option<CommandHint>)
        ensures
            match r {
                Some(h) => hinted(self.hints@, line@, line.len() as int, pos as int) == Some(
                    h.display@,
                ),
                None => hinted(self.hints@, line@, line.len() as int, pos as int) is None,
            },
    {
        let commands = self.hints;
        let chars = chars_of(line);
        if chars.len() == 0 || line.len() < 3 || pos < line.len() || chars[chars.len() - 1] != ' ' {
            return None;
        }
        let slices = split_whitespace(line);
        assert(views(slices@).len() == slices@.len());
        if slices.len() == 0 {
            proof {
                no_words_no_command(commands@, space_words(line@), 0);
            }
            return None;
        }
        let first: &str = slices[0];
        let first_lowered = lowercase(first);
        assert(views(slices@)[0] == first@);
        let mut at: usize = 0;
        while at < commands.len() && !commands[at].matches_lowered(
            first_lowered.as_str(),
            slices.as_slice(),
        )
            invariant
                at <= commands.len(),
                views(slices@) == space_words(line@),
                slices@.len() >= 1,
                first_lowered@ == lowered(views(slices@)[0]),
                matching_command(commands@, space_words(line@), 0) == matching_command(
                    commands@,
                    space_words(line@),
                    at as int,
                ),
            decreases commands.len() - at,
        {
            at = at + 1;
        }
        if at < commands.len() {
            let rest = commands[at].remaining_hint(slices.as_slice());
            Some(CommandHint { display: String::from_str(rest) })
        } else {
            None
        }
    }
}

/// The names among `names` that complete `line`: all of them where the
/// line is blank, and else those that begin with the line.
pub open spec fn completes(line: Seq<char>) -> spec_fn(String) -> bool {
    |name: String| trimmed(line).len() == 0 || starts_with(name@, line)
}

impl CommandCompleter {
    /// A completer that offers `commands`.
    pub fn new(commands: Vec<String>) -> (completer: CommandCompleter)
        ensures
            completer.commands == commands,
    {
        CommandCompleter { commands }
    }

    /// The commands that complete `line`, in their order, each to be put
    /// in in upper case.
    pub fn complete_command(&self, line: &str) -> (offered: Vec<Completion>)
        ensures
            ({
                let matching = self.commands@.filter(completes(line@));
                &&& offered@.len() == matching.len()
                &&& forall|k: int|
                    0 <= k < offered@.len() ==> (#[trigger] offered@[k]).display == matching[k]
                        && offered@[k].replacement@ == uppered(matching[k]@)
            }),
    {
        let empty = trim(line).unicode_len() == 0;
        let ghost wanted = completes(line@);
        let mut offered: Vec<Completion> = Vec::new();
        let mut at: usize = 0;
        proof {
            reveal(Seq::filter);
            assert(self.commands@.take(0) =~= Seq::<String>::empty());
        }
        while at < self.commands.len()
            invariant
                at <= self.commands.len(),
                wanted == completes(line@),
                empty == (trimmed(line@).len() == 0),
                offered@.len() == self.commands@.take(at as int).filter(wanted).len(),
                forall|k: int|
                    0 <= k < offered@.len() ==> (#[trigger] offered@[k]).display
                        == self.commands@.take(at as int).filter(wanted)[k]
                        && offered@[k].replacement@ == uppered(
                        self.commands@.take(at as int).filter(wanted)[k]@,
                    ),
            decreases self.commands.len() - at,
        {
            proof {
                reveal(Seq::filter);
                assert(self.commands@.take(at + 1).drop_last() =~= self.commands@.take(at as int));
            }
            let name = &self.commands[at];
            if empty || has_prefix(name.as_str(), line) {
                offered.push(
                    Completion { display: name.clone(), replacement: uppercase(name.as_str()) },
                );
            }
            at = at + 1;
        }
        proof {
            assert(self.commands@.take(at as int) =~= self.commands@);
        }
        offered
    }
}

/// Whether `command` is the command `kind` with the operation `op`, if
/// any, and the hint `hint`.
pub open spec fn is_entry(
    command: ReplCommand,
    kind: Command,
    op: Option<Seq<char>>,
    hint: Seq<char>,
) -> bool {
    &&& command.cmd@ == command_name(kind)
    &&& command.hint@ == hint
    &&& match op {
        Some(name) => command.op is Some && command.op->0@ == name,
        None => command.op is None,
    }
}

/// The commands of the shell, each with its hint: for every kind of
/// command the bare command first, whose hint lists the operations, and
/// then its operations, whose hints name their arguments.
pub fn commands() -> (all: Vec<ReplCommand>)
    ensures
        all@.len() == 17,
        is_entry(all@[0], Command::Environment, None, "add | to | ls"@),
        is_entry(all@[1], Command::Environment, Some("add"@), "environment description"@),
        is_entry(all@[2], Command::Environment, Some("to"@), "environment"@),
        is_entry(all@[3], Command::Environment, Some("ls"@), ""@),
        is_entry(all@[4], Command::Feature, None, "add | del | ls | on | off | val"@),
        is_entry(all@[5], Command::Feature, Some("ls"@), ""@),
        is_entry(all@[6], Command::Feature, Some("add"@), "feature value"@),
        is_entry(all@[7], Command::Feature, Some("del"@), "feature"@),
        is_entry(all@[8], Command::Feature, Some("val"@), "feature value"@),
        is_entry(all@[9], Command::Feature, Some("on"@), "feature"@),
        is_entry(all@[10], Command::Feature, Some("off"@), "feature"@),
        is_entry(all@[11], Command::Variant, None, "add | del | ls | val | weight"@),
        is_entry(all@[12], Command::Variant, Some("ls"@), "feature"@),
        is_entry(all@[13], Command::Variant, Some("add"@), "feature weight value"@),
        is_entry(all@[14], Command::Variant, Some("del"@), "variant-id"@),
        is_entry(all@[15], Command::Variant, Some("val"@), "variant-id value"@),
        is_entry(all@[16], Command::Variant, Some("weight"@), "variant-id weight"@),
{
    let mut all: Vec<ReplCommand> = Vec::new();
    all.push(Command::Environment.no_op("add | to | ls"));
    all.push(Command::Environment.op("add", "environment description"));
    all.push(Command::Environment.op("to", "environment"));
    all.push(Command::Environment.op("ls", ""));
    all.push(Command::Feature.no_op("add | del | ls | on | off | val"));
    all.push(Command::Feature.op("ls", ""));
    all.push(Command::Feature.op("add", "feature value"));
    all.push(Command::Feature.op("del", "feature"));
    all.push(Command::Feature.op("val", "feature value"));
    all.push(Command::Feature.op("on", "feature"));
    all.push(Command::Feature.op("off", "feature"));
    all.push(Command::Variant.no_op("add | del | ls | val | weight"));
    all.push(Command::Variant.op("ls", "feature"));
    all.push(Command::Variant.op("add", "feature weight value"));
    all.push(Command::Variant.op("del", "variant-id"));
    all.push(Command::Variant.op("val", "variant-id value"));
    all.push(Command::Variant.op("weight", "variant-id weight"));
    all
}

impl PromptHighlighter {
    /// A highlighter that knows of no environment yet.
    pub fn new() -> (highlighter: PromptHighlighter)
        ensures
            highlighter.env is None,
    {
        Self { env: None }
    }

    /// The prompt as it is shown: unchanged.
    pub fn highlight_prompt<'a>(&self, prompt: &'a str, default: bool) -> (shown: &'a str)
        ensures
            shown@ == prompt@,
    {
        prompt
    }
}

/// A hint as it is shown: in dark gray.
pub fn highlight_hint(hint: &str) -> (shown: String)
    ensures
        shown@ == "\x1b[38;5;8m"@ + hint@ + "\x1b[0m"@,
{
    let mut shown = String::from_str("\x1b[38;5;8m");
    shown.append(hint);
    shown.append("\x1b[0m");
    shown
}

/// The prompt of the shell: the project and, in colour, the environment of
/// the session.
pub fn prompt(session: &Session) -> (text: String)
    ensures
        text@ == "["@ + session.project.name@ + "/\x1b[35m"@ + session.environment.name@
            + "\x1b[0m] > "@,
{
    let mut text = String::from_str("[");
    text.append(session.project.name.as_str());
    text.append("/\x1b[35m");
    text.append(session.environment.name.as_str());
    text.append("\x1b[0m] > ");
    text
}

} // verus!
