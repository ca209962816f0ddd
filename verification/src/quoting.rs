//! Commands as they are shown, read back by the rules of a shell.

use vstd::prelude::*;

use crate::model;
use crate::model::CommandSpecView;
use crate::onboarding;

verus! {

/// How a shell takes the next character.
pub enum Quoting {
    /// By its own meaning.
    Plain,
    /// As it is, up to the next single quote.
    Single,
    /// As it is, this one character.
    Escaped,
}

/// A shell in the middle of a line: the words it has read, and the word it is
/// reading, if it is reading one.
#[verifier::ext_equal]
pub struct Reader {
    pub words: Seq<Seq<char>>,
    pub word: Option<Seq<char>>,
    pub quoting: Quoting,
}

/// The word that is being read, as far as it has come.
pub open spec fn so_far(reader: Reader) -> Seq<char> {
    match reader.word {
        Some(word) => word,
        None => Seq::empty(),
    }
}

/// A shell that takes one more character. Between quotes a character stands for
/// itself; elsewhere a space ends a word, a quote and a backslash take away the
/// meaning of what follows, and a character that means something else to a
/// shell is more than a word, so that it is no longer a plain list of words.
pub open spec fn read_char(reader: Reader, c: char) -> Option<Reader> {
    match reader.quoting {
        Quoting::Single => if c == '\'' {
            Some(Reader { quoting: Quoting::Plain, ..reader })
        } else {
            Some(Reader { word: Some(so_far(reader).push(c)), ..reader })
        },
        Quoting::Escaped => if c == '\n' {
            None
        } else {
            Some(
                Reader { word: Some(so_far(reader).push(c)), quoting: Quoting::Plain, ..reader },
            )
        },
        Quoting::Plain => if c == ' ' {
            Some(
                match reader.word {
                    Some(word) => Reader { words: reader.words.push(word), word: None, ..reader },
                    None => reader,
                },
            )
        } else if c == '\'' {
            Some(Reader { word: Some(so_far(reader)), quoting: Quoting::Single, ..reader })
        } else if c == '\\' {
            Some(Reader { word: Some(so_far(reader)), quoting: Quoting::Escaped, ..reader })
        } else if model::plain_char(c) {
            Some(Reader { word: Some(so_far(reader).push(c)), ..reader })
        } else {
            None
        },
    }
}

/// A shell that goes on through a text.
pub open spec fn read_on(reader: Reader, line: Seq<char>) -> Option<Reader>
    decreases line.len(),
{
    if line.len() == 0 {
        Some(reader)
    } else {
        match read_on(reader, line.drop_last()) {
            Some(before) => read_char(before, line.last()),
            None => None,
        }
    }
}

/// A shell at the beginning of a line.
pub open spec fn fresh() -> Reader {
    Reader { words: Seq::empty(), word: None, quoting: Quoting::Plain }
}

/// The words that a shell finds in a line, where it is nothing but words.
pub open spec fn shell_words(line: Seq<char>) -> Option<Seq<Seq<char>>> {
    match read_on(fresh(), line) {
        Some(reader) => match (reader.quoting, reader.word) {
            (Quoting::Plain, Some(word)) => Some(reader.words.push(word)),
            (Quoting::Plain, None) => Some(reader.words),
            _ => None,
        },
        None => None,
    }
}

proof fn read_in_parts(reader: Reader, a: Seq<char>, b: Seq<char>)
    ensures
        read_on(reader, a + b) == match read_on(reader, a) {
            Some(between) => read_on(between, b),
            None => None,
        },
    decreases b.len(),
{
    if b.len() == 0 {
        assert(a + b =~= a);
    } else {
        assert((a + b).drop_last() =~= a + b.drop_last());
        read_in_parts(reader, a, b.drop_last());
    }
}

proof fn read_plain(reader: Reader, value: Seq<char>)
    requires
        reader.quoting is Plain,
        reader.word is None,
        value.len() > 0,
        forall|i: int| 0 <= i < value.len() ==> model::plain_char(#[trigger] value[i]),
    ensures
        read_on(reader, value) == Some(Reader { word: Some(value), ..reader }),
    decreases value.len(),
{
    let before = value.drop_last();
    assert(model::plain_char(value[value.len() - 1]));
    assert(before.push(value.last()) =~= value);
    if before.len() > 0 {
        read_plain(reader, before);
    } else {
        assert(read_on(reader, before) == Some(reader));
        assert(so_far(reader).push(value.last()) =~= value);
    }
}

proof fn read_requoted(reader: Reader, value: Seq<char>)
    requires
        reader.quoting is Single,
        reader.word == Some(Seq::<char>::empty()),
    ensures
        read_on(reader, model::requoted(value)) == Some(Reader { word: Some(value), ..reader }),
    decreases value.len(),
{
    if value.len() == 0 {
        assert(value =~= Seq::empty());
    } else {
        let before = value.drop_last();
        read_requoted(reader, before);
        let between = Reader { word: Some(before), ..reader };
        assert(before.push(value.last()) =~= value);
        if value.last() == '\'' {
            let tail = seq!['\'', '\\', '\'', '\''];
            read_in_parts(reader, model::requoted(before), tail);
            assert(tail.drop_last() =~= seq!['\'', '\\', '\'']);
            assert(tail.drop_last().drop_last() =~= seq!['\'', '\\']);
            assert(tail.drop_last().drop_last().drop_last() =~= seq!['\'']);
            assert(tail.drop_last().drop_last().drop_last().drop_last() =~= Seq::<char>::empty());
            reveal_with_fuel(read_on, 5);
            assert(read_on(between, tail) == Some(Reader { word: Some(value), ..reader }));
        } else {
            let tail = seq![value.last()];
            assert(model::requoted(value) =~= model::requoted(before) + tail);
            read_in_parts(reader, model::requoted(before), tail);
            assert(tail.drop_last() =~= Seq::<char>::empty());
            assert(read_on(between, tail.drop_last()) == Some(between));
        }
    }
}

proof fn read_shown_word(reader: Reader, value: Seq<char>)
    requires
        reader.quoting is Plain,
        reader.word is None,
        value.len() > 0,
    ensures
        read_on(reader, model::shown_word(value)) == Some(Reader { word: Some(value), ..reader }),
{
    if forall|i: int| 0 <= i < value.len() ==> model::plain_char(#[trigger] value[i]) {
        read_plain(reader, value);
    } else {
        let mark = seq!['\''];
        let inside = Reader { word: Some(Seq::empty()), quoting: Quoting::Single, ..reader };
        let done = Reader { word: Some(value), ..inside };
        assert(mark.drop_last() =~= Seq::<char>::empty());
        assert(read_on(reader, mark.drop_last()) == Some(reader));
        assert(read_on(reader, mark) == Some(inside));
        read_in_parts(reader, mark, model::requoted(value));
        read_requoted(inside, value);
        read_in_parts(reader, mark + model::requoted(value), mark);
        assert(read_on(done, mark.drop_last()) == Some(done));
    }
}

proof fn read_shown_words(words: Seq<Seq<char>>)
    requires
        words.len() > 0,
        forall|i: int| 0 <= i < words.len() ==> (#[trigger] words[i]).len() > 0,
    ensures
        read_on(
            fresh(),
            model::spaced(words.map_values(|word: Seq<char>| model::shown_word(word))),
        ) == Some(
            Reader { words: words.drop_last(), word: Some(words.last()), quoting: Quoting::Plain },
        ),
    decreases words.len(),
{
    let shown = words.map_values(|word: Seq<char>| model::shown_word(word));
    assert(words[words.len() - 1].len() > 0);
    if words.len() == 1 {
        read_shown_word(fresh(), words[0]);
        assert(words.drop_last() =~= Seq::empty());
    } else {
        let before = words.drop_last();
        assert forall|i: int| 0 <= i < before.len() implies (#[trigger] before[i]).len() > 0 by {
            assert(before[i] == words[i]);
        }
        read_shown_words(before);
        let line = model::spaced(before.map_values(|word: Seq<char>| model::shown_word(word)));
        assert(shown.drop_last() =~= before.map_values(|word: Seq<char>| model::shown_word(word)));
        let gap = seq![' '];
        let met = Reader {
            words: before.drop_last(),
            word: Some(before.last()),
            quoting: Quoting::Plain,
        };
        assert(gap.drop_last() =~= Seq::<char>::empty());
        assert(read_on(met, gap.drop_last()) == Some(met));
        assert(before.drop_last().push(before.last()) =~= before);
        let next = Reader { words: before, word: None, quoting: Quoting::Plain };
        assert(read_on(met, gap) == Some(next));
        read_in_parts(fresh(), line, gap);
        read_in_parts(fresh(), line + gap, model::shown_word(words.last()));
        read_shown_word(next, words.last());
    }
}

/// What is shown of a program and its arguments can be read back: a shell finds
/// exactly the program and the arguments in it, as long as none of them is
/// empty. An empty one is not to be seen in what is shown.
pub proof fn a_shown_command_reads_back(program: Seq<char>, args: Seq<Seq<char>>)
    requires
        program.len() > 0,
        forall|i: int| 0 <= i < args.len() ==> (#[trigger] args[i]).len() > 0,
    ensures
        shell_words(model::shown_command(CommandSpecView::Argv { program, args })) == Some(
            seq![program] + args,
        ),
{
    let words = seq![program] + args;
    assert forall|i: int| 0 <= i < words.len() implies (#[trigger] words[i]).len() > 0 by {
        if i > 0 {
            assert(words[i] == args[i - 1]);
        }
    }
    read_shown_words(words);
    assert(words.drop_last().push(words.last()) =~= words);
}

proof fn read_more_plain(reader: Reader, value: Seq<char>)
    requires
        reader.quoting is Plain,
        value.len() > 0,
        forall|i: int| 0 <= i < value.len() ==> model::plain_char(#[trigger] value[i]),
    ensures
        read_on(reader, value) == Some(Reader { word: Some(so_far(reader) + value), ..reader }),
    decreases value.len(),
{
    let before = value.drop_last();
    assert(model::plain_char(value[value.len() - 1]));
    if before.len() > 0 {
        assert forall|i: int| 0 <= i < before.len() implies model::plain_char(
            #[trigger] before[i],
        ) by {
            assert(model::plain_char(value[i]));
        }
        read_more_plain(reader, before);
        assert((so_far(reader) + before).push(value.last()) =~= so_far(reader) + value);
    } else {
        assert(read_on(reader, before) == Some(reader));
        assert(so_far(reader).push(value.last()) =~= so_far(reader) + value);
    }
}

proof fn read_more_requoted(reader: Reader, start: Seq<char>, value: Seq<char>)
    requires
        reader.quoting is Single,
        reader.word == Some(start),
    ensures
        read_on(reader, model::requoted(value)) == Some(
            Reader { word: Some(start + value), ..reader },
        ),
    decreases value.len(),
{
    if value.len() == 0 {
        assert(start + value =~= start);
    } else {
        let before = value.drop_last();
        read_more_requoted(reader, start, before);
        let between = Reader { word: Some(start + before), ..reader };
        assert((start + before).push(value.last()) =~= start + value);
        if value.last() == '\'' {
            let tail = seq!['\'', '\\', '\'', '\''];
            read_in_parts(reader, model::requoted(before), tail);
            assert(tail.drop_last() =~= seq!['\'', '\\', '\'']);
            assert(tail.drop_last().drop_last() =~= seq!['\'', '\\']);
            assert(tail.drop_last().drop_last().drop_last() =~= seq!['\'']);
            assert(tail.drop_last().drop_last().drop_last().drop_last() =~= Seq::<char>::empty());
            reveal_with_fuel(read_on, 5);
            assert(read_on(between, tail) == Some(
                Reader { word: Some(start + value), ..reader },
            ));
        } else {
            let tail = seq![value.last()];
            assert(model::requoted(value) =~= model::requoted(before) + tail);
            read_in_parts(reader, model::requoted(before), tail);
            assert(tail.drop_last() =~= Seq::<char>::empty());
            assert(read_on(between, tail.drop_last()) == Some(between));
        }
    }
}

/// A text that is quoted for a shell is part of one word, and is read as
/// itself.
proof fn read_quoted(reader: Reader, value: Seq<char>)
    requires
        reader.quoting is Plain,
    ensures
        read_on(reader, onboarding::quoted(value)) == Some(
            Reader { word: Some(so_far(reader) + value), ..reader },
        ),
{
    let mark = seq!['\''];
    let start = so_far(reader);
    let inside = Reader { word: Some(start), quoting: Quoting::Single, ..reader };
    let done = Reader { word: Some(start + value), ..inside };
    assert(mark.drop_last() =~= Seq::<char>::empty());
    assert(read_on(reader, mark.drop_last()) == Some(reader));
    assert(read_on(reader, mark) == Some(inside));
    read_in_parts(reader, mark, model::requoted(value));
    read_more_requoted(inside, start, value);
    read_in_parts(reader, mark + model::requoted(value), mark);
    assert(read_on(done, mark.drop_last()) == Some(done));
}

proof fn read_space(reader: Reader)
    requires
        reader.quoting is Plain,
    ensures
        read_on(reader, seq![' ']) == Some(
            match reader.word {
                Some(word) => Reader { words: reader.words.push(word), word: None, ..reader },
                None => reader,
            },
        ),
{
    assert(seq![' '].drop_last() =~= Seq::<char>::empty());
    assert(read_on(reader, seq![' '].drop_last()) == Some(reader));
}

/// A setting of a variable, as one word.
pub open spec fn setting(var: (Seq<char>, Seq<char>)) -> Seq<char> {
    var.0 + seq!['='] + var.1
}

/// Whether a name stands for itself in a shell.
pub open spec fn plain_word(name: Seq<char>) -> bool {
    name.len() > 0 && forall|i: int| 0 <= i < name.len() ==> model::plain_char(#[trigger] name[i])
}

proof fn read_assignments(vars: Seq<(Seq<char>, Seq<char>)>)
    requires
        forall|i: int| 0 <= i < vars.len() ==> plain_word((#[trigger] vars[i]).0),
    ensures
        read_on(fresh(), onboarding::shell_assignments(vars)) == Some(
            Reader {
                words: vars.map_values(|var: (Seq<char>, Seq<char>)| setting(var)),
                word: None,
                quoting: Quoting::Plain,
            },
        ),
    decreases vars.len(),
{
    let words = vars.map_values(|var: (Seq<char>, Seq<char>)| setting(var));
    if vars.len() == 0 {
        assert(words =~= Seq::empty());
    } else {
        let front = vars.drop_last();
        let last = vars.last();
        assert(vars[vars.len() - 1] == last);
        assert forall|i: int| 0 <= i < front.len() implies plain_word((#[trigger] front[i]).0) by {
            assert(vars[i] == front[i]);
        }
        read_assignments(front);
        let before = Reader {
            words: front.map_values(|var: (Seq<char>, Seq<char>)| setting(var)),
            word: None,
            quoting: Quoting::Plain,
        };
        reveal_strlit("=");
        reveal_strlit(" ");
        assert("="@ =~= seq!['=']);
        assert(" "@ =~= seq![' ']);
        let one = onboarding::shell_assignments(front);
        let two = one + last.0;
        let three = two + "="@;
        let four = three + onboarding::quoted(last.1);
        read_in_parts(fresh(), one, last.0);
        read_more_plain(before, last.0);
        let named = Reader { word: Some(so_far(before) + last.0), ..before };
        read_in_parts(fresh(), two, "="@);
        read_more_plain(named, "="@);
        let equal = Reader { word: Some(so_far(named) + "="@), ..before };
        read_in_parts(fresh(), three, onboarding::quoted(last.1));
        read_quoted(equal, last.1);
        let set = Reader { word: Some(so_far(equal) + last.1), ..before };
        assert(so_far(set) =~= setting(last));
        read_in_parts(fresh(), four, " "@);
        read_space(set);
        assert(before.words.push(setting(last)) =~= words);
    }
}

/// The line that is called for a hook is read by a shell as the settings of the
/// variables, the program and then its three words.
pub proof fn a_hook_line_reads_back(
    vars: Seq<(Seq<char>, Seq<char>)>,
    command: Seq<char>,
    provider: Seq<char>,
)
    requires
        plain_word(provider),
        forall|i: int| 0 <= i < vars.len() ==> plain_word((#[trigger] vars[i]).0),
    ensures
        shell_words(
            onboarding::shell_assignments(vars) + onboarding::quoted(command)
                + " agent-event --provider "@ + provider,
        ) == Some(
            vars.map_values(|var: (Seq<char>, Seq<char>)| setting(var)) + seq![
                command,
                "agent-event"@,
                "--provider"@,
                provider,
            ],
        ),
{
    let settings = vars.map_values(|var: (Seq<char>, Seq<char>)| setting(var));
    let space = seq![' '];
    reveal_strlit(" agent-event --provider ");
    reveal_strlit("agent-event");
    reveal_strlit("--provider");
    let middle = space + "agent-event"@ + space + "--provider"@ + space;
    assert(" agent-event --provider "@ =~= middle);
    let one = onboarding::shell_assignments(vars);
    let two = one + onboarding::quoted(command);
    let three = two + space;
    let four = three + "agent-event"@;
    let five = four + space;
    let six = five + "--provider"@;
    let seven = six + space;
    let line = seven + provider;
    assert(two + " agent-event --provider "@ + provider =~= line);
    read_assignments(vars);
    let r1 = Reader { words: settings, word: None, quoting: Quoting::Plain };
    read_in_parts(fresh(), one, onboarding::quoted(command));
    read_quoted(r1, command);
    assert(so_far(r1) + command =~= command);
    let r2 = Reader { word: Some(command), ..r1 };
    read_in_parts(fresh(), two, space);
    read_space(r2);
    let r3 = Reader { words: settings.push(command), ..r1 };
    read_in_parts(fresh(), three, "agent-event"@);
    read_more_plain(r3, "agent-event"@);
    assert(so_far(r3) + "agent-event"@ =~= "agent-event"@);
    let r4 = Reader { word: Some("agent-event"@), ..r3 };
    read_in_parts(fresh(), four, space);
    read_space(r4);
    let r5 = Reader { words: r3.words.push("agent-event"@), ..r1 };
    read_in_parts(fresh(), five, "--provider"@);
    read_more_plain(r5, "--provider"@);
    assert(so_far(r5) + "--provider"@ =~= "--provider"@);
    let r6 = Reader { word: Some("--provider"@), ..r5 };
    read_in_parts(fresh(), six, space);
    read_space(r6);
    let r7 = Reader { words: r5.words.push("--provider"@), ..r1 };
    read_in_parts(fresh(), seven, provider);
    read_more_plain(r7, provider);
    assert(so_far(r7) + provider =~= provider);
    assert(r7.words.push(provider) =~= settings + seq![
        command,
        "agent-event"@,
        "--provider"@,
        provider,
    ]);
}

} // verus!
