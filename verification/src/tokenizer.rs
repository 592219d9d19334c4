//! The quote-aware tokenizer: an input line becomes a command name and
//! an ordered list of argument strings.
//!
//! A line is scanned once, character by character.  The command name
//! ends at the first space that stands outside single quotes.  Inside
//! the argument part, single quotes are structural: they toggle the
//! quoted state and are dropped when the arguments are split, while
//! spaces inside quotes are kept as ordinary characters.  Spaces
//! outside quotes separate arguments, and runs of them produce no
//! empty arguments.  A line that ends inside a quoted region is not an
//! error: the scan reports the unclosed quote and the result stands as
//! if the quote had been closed at the end of the line.

use crate::strutil::trim_spaces;
use crate::strutil::trim_spec;
use vstd::prelude::*;
use vstd::string::*;

verus! {

/// The interpreter core.  It holds no state of its own: the working
/// directory and the environment belong to the surrounding process, so
/// every method is a pure computation.
pub struct Shell;

/// One scan step over the rest of a line: what it contributes to the
/// command name, what it contributes to the raw argument text, and
/// whether the line ends inside a quoted region.  `in_command` says
/// whether the scan still stands inside the command-name segment, and
/// `in_quotes` whether it stands inside single quotes.
pub open spec fn scan_line(s: Seq<char>, in_command: bool, in_quotes: bool) -> (Seq<char>, Seq<
    char,
>, bool)
    decreases s.len(),
{
    if s.len() == 0 {
        (Seq::<char>::empty(), Seq::<char>::empty(), in_quotes)
    } else {
        let c = s[0];
        let rest = s.drop_first();
        if c == ' ' && !in_quotes && in_command {
            scan_line(rest, false, in_quotes)
        } else if c == '\'' {
            let t = scan_line(rest, in_command, !in_quotes);
            if in_command {
                t
            } else {
                (t.0, seq![c] + t.1, t.2)
            }
        } else if in_command {
            let t = scan_line(rest, true, in_quotes);
            (seq![c] + t.0, t.1, t.2)
        } else {
            let t = scan_line(rest, false, in_quotes);
            (t.0, seq![c] + t.1, t.2)
        }
    }
}

/// The command name of a line: everything before the first space that
/// stands outside quotes, with the name's own quote characters dropped.
pub open spec fn line_name(s: Seq<char>) -> Seq<char> {
    scan_line(s, true, false).0
}

/// The raw argument text of a line: everything after the command name,
/// quote characters included, not yet trimmed.
pub open spec fn line_args_raw(s: Seq<char>) -> Seq<char> {
    scan_line(s, true, false).1
}

/// The argument text of a line: the raw argument text with leading and
/// trailing spaces removed.
pub open spec fn line_args(s: Seq<char>) -> Seq<char> {
    trim_spec(line_args_raw(s))
}

/// Whether the line ends inside a quoted region.
pub open spec fn line_unclosed(s: Seq<char>) -> bool {
    scan_line(s, true, false).2
}

/// The argument strings of a raw argument text, scanned from the state
/// `cur` (the argument accumulated so far) and `in_quotes`.  Quotes
/// toggle the quoted state and are dropped; spaces outside quotes end
/// the current argument; every other character extends it.  No empty
/// argument is ever produced.
pub open spec fn scan_args(s: Seq<char>, cur: Seq<char>, in_quotes: bool) -> Seq<Seq<char>>
    decreases s.len(),
{
    if s.len() == 0 {
        if cur.len() == 0 {
            Seq::<Seq<char>>::empty()
        } else {
            seq![cur]
        }
    } else {
        let c = s[0];
        let rest = s.drop_first();
        if c == '\'' {
            scan_args(rest, cur, !in_quotes)
        } else if c == ' ' && !in_quotes {
            if cur.len() == 0 {
                scan_args(rest, Seq::<char>::empty(), in_quotes)
            } else {
                seq![cur] + scan_args(rest, Seq::<char>::empty(), in_quotes)
            }
        } else {
            scan_args(rest, cur.push(c), in_quotes)
        }
    }
}

/// The argument strings of a raw argument text.
pub open spec fn tokenize_args(s: Seq<char>) -> Seq<Seq<char>> {
    scan_args(s, Seq::<char>::empty(), false)
}

/// The argument strings joined back into one text, with a single space
/// between successive arguments.
pub open spec fn join_spaces(ts: Seq<Seq<char>>) -> Seq<char>
    decreases ts.len(),
{
    if ts.len() == 0 {
        Seq::<char>::empty()
    } else if ts.len() == 1 {
        ts[0]
    } else {
        ts[0] + seq![' '] + join_spaces(ts.drop_first())
    }
}

/// Appending one more string to a join adds a separating space exactly
/// when something was joined already.
pub proof fn lemma_join_spaces_push(ts: Seq<Seq<char>>, t: Seq<char>)
    ensures
        join_spaces(ts.push(t)) == if ts.len() == 0 {
            t
        } else {
            join_spaces(ts) + seq![' '] + t
        },
    decreases ts.len(),
{
    if ts.len() == 0 {
        assert(ts.push(t) =~= seq![t]);
        assert(join_spaces(seq![t]) == t);
    } else {
        let p = ts.push(t);
        assert(p.len() >= 2);
        assert(p[0] == ts[0]);
        assert(p.drop_first() =~= ts.drop_first().push(t));
        lemma_join_spaces_push(ts.drop_first(), t);
        if ts.len() == 1 {
            assert(join_spaces(ts) == ts[0]);
        } else {
            assert(ts[0] + seq![' '] + (join_spaces(ts.drop_first()) + seq![' '] + t) =~= (ts[0]
                + seq![' '] + join_spaces(ts.drop_first())) + seq![' '] + t);
        }
    }
}

/// `s` with its leading spaces removed and every later run of spaces
/// collapsed to a single one, trailing spaces dropped.
pub open spec fn collapse_spaces(s: Seq<char>) -> Seq<char>
    decreases s.len(),
{
    if s.len() == 0 {
        Seq::<char>::empty()
    } else if s[0] == ' ' {
        collapse_spaces(s.drop_first())
    } else {
        seq![s[0]] + collapse_in_word(s.drop_first())
    }
}

/// The collapse of `s` when the scan stands inside a word: a run of
/// spaces becomes one space if another word follows, and nothing if
/// only spaces remain.
pub open spec fn collapse_in_word(s: Seq<char>) -> Seq<char>
    decreases s.len(),
{
    if s.len() == 0 {
        Seq::<char>::empty()
    } else if s[0] == ' ' {
        let r = collapse_spaces(s.drop_first());
        if r.len() == 0 {
            Seq::<char>::empty()
        } else {
            seq![' '] + r
        }
    } else {
        seq![s[0]] + collapse_in_word(s.drop_first())
    }
}

/// Whether every string of `ts` is non-empty.
pub open spec fn all_tokens_nonempty(ts: Seq<Seq<char>>) -> bool {
    forall|k: int| 0 <= k < ts.len() ==> (#[trigger] ts[k]).len() > 0
}

/// Every argument string that the scan produces is non-empty.
proof fn lemma_scan_args_tokens_nonempty(s: Seq<char>, cur: Seq<char>, in_quotes: bool)
    ensures
        all_tokens_nonempty(scan_args(s, cur, in_quotes)),
    decreases s.len(),
{
    if s.len() == 0 {
        if cur.len() > 0 {
            assert(scan_args(s, cur, in_quotes) == seq![cur]);
            assert(seq![cur][0] == cur);
        }
    } else {
        let c = s[0];
        let rest = s.drop_first();
        if c == '\'' {
            lemma_scan_args_tokens_nonempty(rest, cur, !in_quotes);
        } else if c == ' ' && !in_quotes {
            lemma_scan_args_tokens_nonempty(rest, Seq::<char>::empty(), in_quotes);
            if cur.len() > 0 {
                let t = scan_args(rest, Seq::<char>::empty(), in_quotes);
                assert forall|k: int| 0 <= k < (seq![cur] + t).len() implies (#[trigger] (seq![cur]
                    + t)[k]).len() > 0 by {
                    if k == 0 {
                        assert((seq![cur] + t)[0] == cur);
                    } else {
                        assert((seq![cur] + t)[k] == t[k - 1]);
                    }
                }
            }
        } else {
            lemma_scan_args_tokens_nonempty(rest, cur.push(c), in_quotes);
        }
    }
}

/// The join of the scan of a quote-free text: with nothing accumulated
/// it is the collapsed text, and with a word accumulated it is that
/// word followed by the in-word collapse of the text.
proof fn lemma_scan_args_join(s: Seq<char>, cur: Seq<char>)
    requires
        forall|k: int| 0 <= k < s.len() ==> s[k] != '\'',
    ensures
        join_spaces(scan_args(s, cur, false)) == if cur.len() == 0 {
            collapse_spaces(s)
        } else {
            cur + collapse_in_word(s)
        },
    decreases s.len(),
{
    if s.len() == 0 {
        if cur.len() > 0 {
            assert(cur + collapse_in_word(s) =~= cur);
        }
    } else {
        let c = s[0];
        let rest = s.drop_first();
        assert forall|k: int| 0 <= k < rest.len() implies rest[k] != '\'' by {
            assert(rest[k] == s[k + 1]);
        }
        if c == ' ' {
            if cur.len() == 0 {
                lemma_scan_args_join(rest, Seq::<char>::empty());
            } else {
                lemma_scan_args_join(rest, Seq::<char>::empty());
                let t = scan_args(rest, Seq::<char>::empty(), false);
                lemma_scan_args_tokens_nonempty(rest, Seq::<char>::empty(), false);
                if t.len() == 0 {
                    assert(seq![cur] + t =~= seq![cur]);
                    assert(join_spaces(seq![cur]) == cur);
                    assert(cur + collapse_in_word(s) =~= cur);
                } else {
                    let joined = seq![cur] + t;
                    assert(joined.len() >= 2);
                    assert(joined.drop_first() =~= t);
                    assert(join_spaces(joined) == cur + seq![' '] + join_spaces(t));
                    assert(join_spaces(t).len() > 0);
                    assert(collapse_spaces(rest).len() > 0);
                    assert(cur + seq![' '] + collapse_spaces(rest) =~= cur + (seq![' ']
                        + collapse_spaces(rest)));
                }
            }
        } else {
            lemma_scan_args_join(rest, cur.push(c));
            if cur.len() == 0 {
                assert(cur.push(c) =~= seq![c]);
            } else {
                assert(cur.push(c) + collapse_in_word(rest) =~= cur + (seq![c] + collapse_in_word(
                    rest,
                )));
            }
        }
    }
}

/// Law: on an argument text without quote characters, tokenizing and
/// joining the arguments back with single spaces reproduces the text
/// with its spaces collapsed: leading and trailing spaces gone, every
/// internal run of spaces reduced to one.
pub proof fn lemma_tokenize_then_join_collapses(s: Seq<char>)
    requires
        forall|k: int| 0 <= k < s.len() ==> s[k] != '\'',
    ensures
        join_spaces(tokenize_args(s)) == collapse_spaces(s),
{
    lemma_scan_args_join(s, Seq::<char>::empty());
}

/// A tokenized line: the command name and its arguments.  An empty
/// name is the no-command sentinel of an empty line.
pub struct ParsedCommand {
    pub name: String,
    pub args: Vec<String>,
}

impl Shell {
    /// Split a line into the command name and the raw argument text,
    /// and report whether the line ended inside a quoted region.
    pub fn parse_command_inline(&self, input: &str) -> (r: (String, String, bool))
        ensures
            r.0@ == line_name(input@),
            r.1@ == line_args(input@),
            r.2 == line_unclosed(input@),
    {
        let len: usize = input.unicode_len();
        let mut command = String::new();
        let mut args = String::new();
        let mut in_quotes = false;
        let mut in_command = true;
        let mut i: usize = 0;
        proof {
            assert(input@.subrange(0, len as int) =~= input@);
            assert(command@ + scan_line(input@, true, false).0 =~= scan_line(
                input@,
                true,
                false,
            ).0);
            assert(args@ + scan_line(input@, true, false).1 =~= scan_line(input@, true, false).1);
        }
        while i < len
            invariant
                len == input@.len(),
                i <= len,
                scan_line(input@, true, false).0 == command@ + scan_line(
                    input@.subrange(i as int, len as int),
                    in_command,
                    in_quotes,
                ).0,
                scan_line(input@, true, false).1 == args@ + scan_line(
                    input@.subrange(i as int, len as int),
                    in_command,
                    in_quotes,
                ).1,
                scan_line(input@, true, false).2 == scan_line(
                    input@.subrange(i as int, len as int),
                    in_command,
                    in_quotes,
                ).2,
            decreases len - i,
        {
            let ghost pre = input@.subrange(i as int, len as int);
            let ghost post = input@.subrange(i as int + 1, len as int);
            proof {
                assert(pre.drop_first() =~= post);
                assert(pre[0] == input@[i as int]);
            }
            let c = input.get_char(i);
            let ghost command0 = command@;
            let ghost args0 = args@;
            proof {
                assert(input@.subrange(i as int, i as int + 1) =~= seq![c]);
            }
            if c == ' ' && !in_quotes && in_command {
                in_command = false;
            } else if c == '\'' {
                in_quotes = !in_quotes;
                if !in_command {
                    args.append(input.substring_char(i, i + 1));
                    proof {
                        let t = scan_line(post, in_command, in_quotes);
                        assert((args0 + seq![c]) + t.1 =~= args0 + (seq![c] + t.1));
                    }
                }
            } else if in_command {
                command.append(input.substring_char(i, i + 1));
                proof {
                    let t = scan_line(post, in_command, in_quotes);
                    assert((command0 + seq![c]) + t.0 =~= command0 + (seq![c] + t.0));
                }
            } else {
                args.append(input.substring_char(i, i + 1));
                proof {
                    let t = scan_line(post, in_command, in_quotes);
                    assert((args0 + seq![c]) + t.1 =~= args0 + (seq![c] + t.1));
                }
            }
            i = i + 1;
        }
        proof {
            assert(input@.subrange(len as int, len as int) =~= Seq::<char>::empty());
            assert(command@ + Seq::<char>::empty() =~= command@);
            assert(args@ + Seq::<char>::empty() =~= args@);
        }
        let trimmed = trim_spaces(args.as_str());
        (command, trimmed, in_quotes)
    }

    /// Split an argument text into its argument strings: spaces outside
    /// single quotes separate, quotes are dropped, and what stands
    /// between quotes is kept exactly as typed.
    pub fn parse_args(&self, args: &str) -> (r: Vec<String>)
        ensures
            r.deep_view() == tokenize_args(args@),
    {
        let len: usize = args.unicode_len();
        let mut result: Vec<String> = Vec::new();
        let mut current = String::new();
        let mut in_quotes = false;
        let mut i: usize = 0;
        proof {
            assert(args@.subrange(0, len as int) =~= args@);
            assert(result.deep_view() + tokenize_args(args@) =~= tokenize_args(args@));
        }
        while i < len
            invariant
                len == args@.len(),
                i <= len,
                tokenize_args(args@) == result.deep_view() + scan_args(
                    args@.subrange(i as int, len as int),
                    current@,
                    in_quotes,
                ),
            decreases len - i,
        {
            let ghost pre = args@.subrange(i as int, len as int);
            let ghost post = args@.subrange(i as int + 1, len as int);
            proof {
                assert(pre.drop_first() =~= post);
                assert(pre[0] == args@[i as int]);
            }
            let c = args.get_char(i);
            let ghost result0 = result.deep_view();
            let ghost current0 = current@;
            if c == '\'' {
                in_quotes = !in_quotes;
            } else if c == ' ' && !in_quotes {
                if !current.as_str().is_empty() {
                    result.push(current);
                    current = String::new();
                    proof {
                        let t = scan_args(post, current@, in_quotes);
                        assert(result.deep_view() =~= result0.push(current0));
                        assert(result0.push(current0) + t =~= result0 + (seq![current0] + t));
                        assert(current@ =~= Seq::<char>::empty());
                    }
                } else {
                    proof {
                        assert(current@ =~= Seq::<char>::empty());
                    }
                }
            } else {
                current.append(args.substring_char(i, i + 1));
                proof {
                    assert(args@.subrange(i as int, i as int + 1) =~= seq![c]);
                    assert(current@ =~= current0.push(c));
                }
            }
            i = i + 1;
        }
        proof {
            assert(args@.subrange(len as int, len as int) =~= Seq::<char>::empty());
        }
        if !current.as_str().is_empty() {
            let ghost result0 = result.deep_view();
            let ghost current0 = current@;
            result.push(current);
            proof {
                assert(result.deep_view() =~= result0.push(current0));
                assert(result0.push(current0) =~= result0 + seq![current0]);
            }
        } else {
            proof {
                assert(result.deep_view() + Seq::<Seq<char>>::empty() =~= result.deep_view());
            }
        }
        result
    }

    /// Tokenize a whole line: the command name, the argument strings,
    /// and whether the line ended inside a quoted region.
    pub fn tokenize(&self, line: &str) -> (r: (ParsedCommand, bool))
        ensures
            r.0.name@ == line_name(line@),
            r.0.args.deep_view() == tokenize_args(line_args(line@)),
            r.1 == line_unclosed(line@),
    {
        let (name, args_text, unclosed) = self.parse_command_inline(line);
        let args = self.parse_args(args_text.as_str());
        (ParsedCommand { name, args }, unclosed)
    }
}

} // verus!
