//! The argument scanner: a linear pass over the command-line tokens that
//! fills a key/value table, a flag list, and a positional list.
//!
//! Token shapes: `--key=value` binds immediately; `--key` and `-key` open a
//! pending key, which the next plain token fills as its value and which
//! becomes a flag if nothing fills it; any other token is positional.  A
//! help token aborts the scan.  The whole pass is specified by `parse_run`,
//! a fold of `parse_step` over the tokens.

use crate::errors::{unknown_error, CliError};
use crate::strmap::StrMap;
use crate::term;
use crate::text::str_eq;
use vstd::prelude::*;
use vstd::string::*;

verus! {

/// The token opens with two dashes.
pub open spec fn starts_dashdash(t: Seq<char>) -> bool {
    t.len() >= 2 && t[0] == '-' && t[1] == '-'
}

/// The token opens with a dash.
pub open spec fn starts_dash(t: Seq<char>) -> bool {
    t.len() >= 1 && t[0] == '-'
}

/// The token holds an equals sign.
pub open spec fn has_eq(t: Seq<char>) -> bool {
    exists|i: int| 0 <= i < t.len() && t[i] == '='
}

/// The position of the first equals sign.
pub open spec fn first_eq(t: Seq<char>) -> int
    decreases t.len(),
{
    if t.len() == 0 {
        0
    } else if t[0] == '=' {
        0
    } else {
        1 + first_eq(t.drop_first())
    }
}

/// The token with every leading pair of dashes removed.
pub open spec fn strip_dd(t: Seq<char>) -> Seq<char>
    decreases t.len(),
{
    if starts_dashdash(t) {
        strip_dd(t.subrange(2, t.len() as int))
    } else {
        t
    }
}

/// The token with every leading dash removed.
pub open spec fn strip_d(t: Seq<char>) -> Seq<char>
    decreases t.len(),
{
    if starts_dash(t) {
        strip_d(t.subrange(1, t.len() as int))
    } else {
        t
    }
}

/// The token that requests help.
pub open spec fn is_help(t: Seq<char>) -> bool {
    t == "--help"@ || t == "-h"@
}

proof fn lemma_first_eq(t: Seq<char>, i: int)
    requires
        0 <= i < t.len(),
        t[i] == '=',
        forall|j: int| 0 <= j < i ==> t[j] != '=',
    ensures
        first_eq(t) == i,
    decreases i,
{
    if i > 0 {
        lemma_first_eq(t.drop_first(), i - 1);
    }
}

fn tok_starts_dashdash(t: &str) -> (r: bool)
    ensures
        r == starts_dashdash(t@),
{
    let n = t.unicode_len();
    if n < 2 {
        return false;
    }
    t.get_char(0) == '-' && t.get_char(1) == '-'
}

fn tok_starts_dash(t: &str) -> (r: bool)
    ensures
        r == starts_dash(t@),
{
    let n = t.unicode_len();
    if n < 1 {
        return false;
    }
    t.get_char(0) == '-'
}

fn find_eq(t: &str) -> (r: Option<usize>)
    ensures
        (r matches Some(i) ==> has_eq(t@) && i < t@.len() && t@[i as int] == '=' && i as int
            == first_eq(t@)),
        (r is None ==> !has_eq(t@)),
{
    let n = t.unicode_len();
    let mut i: usize = 0;
    while i < n
        invariant
            i <= n,
            n == t@.len(),
            forall|j: int| 0 <= j < i ==> t@[j] != '=',
        decreases n - i,
    {
        if t.get_char(i) == '=' {
            proof {
                lemma_first_eq(t@, i as int);
            }
            return Some(i);
        }
        i = i + 1;
    }
    None
}

fn strip_dashdash(t: &str) -> (r: &str)
    ensures
        r@ == strip_dd(t@),
{
    let n = t.unicode_len();
    let mut k: usize = 0;
    proof {
        assert(t@.subrange(0, n as int) =~= t@);
    }
    while k < n && k + 1 < n && t.get_char(k) == '-' && t.get_char(k + 1) == '-'
        invariant
            k <= n,
            n == t@.len(),
            strip_dd(t@) == strip_dd(t@.subrange(k as int, n as int)),
        decreases n - k,
    {
        proof {
            let sub = t@.subrange(k as int, n as int);
            assert(sub[0] == t@[k as int]);
            assert(sub[1] == t@[k as int + 1]);
            assert(starts_dashdash(sub));
            assert(sub.subrange(2, sub.len() as int) =~= t@.subrange(k as int + 2, n as int));
        }
        k = k + 2;
    }
    proof {
        let sub = t@.subrange(k as int, n as int);
        assert(!starts_dashdash(sub));
    }
    t.substring_char(k, n)
}

fn strip_dash(t: &str) -> (r: &str)
    ensures
        r@ == strip_d(t@),
{
    let n = t.unicode_len();
    let mut k: usize = 0;
    proof {
        assert(t@.subrange(0, n as int) =~= t@);
    }
    while k < n && t.get_char(k) == '-'
        invariant
            k <= n,
            n == t@.len(),
            strip_d(t@) == strip_d(t@.subrange(k as int, n as int)),
        decreases n - k,
    {
        proof {
            let sub = t@.subrange(k as int, n as int);
            assert(sub[0] == t@[k as int]);
            assert(starts_dash(sub));
            assert(sub.subrange(1, sub.len() as int) =~= t@.subrange(k as int + 1, n as int));
        }
        k = k + 1;
    }
    proof {
        let sub = t@.subrange(k as int, n as int);
        assert(!starts_dash(sub));
    }
    t.substring_char(k, n)
}

/// The value of an optional text, empty when absent (used only under a
/// presence test).
pub open spec fn opt_val(o: Option<Seq<char>>) -> Seq<char> {
    match o {
        Some(v) => v,
        None => Seq::empty(),
    }
}

/// The view of an optional owned string.
pub open spec fn opt_view(o: Option<String>) -> Option<Seq<char>> {
    match o {
        Some(s) => Some(s@),
        None => None,
    }
}

/// The abstract state of a scan: the key/value table, the flags, the
/// positionals, and the pending key waiting for a value.
pub ghost struct ParseState {
    pub args: Map<Seq<char>, Seq<char>>,
    pub flags: Seq<Seq<char>>,
    pub positional: Seq<Seq<char>>,
    pub pending: Option<Seq<char>>,
}

/// The flag list once a pending key is flushed into it.
pub open spec fn flush_flags(flags: Seq<Seq<char>>, pending: Option<Seq<char>>) -> Seq<Seq<char>> {
    match pending {
        Some(p) => flags.push(p),
        None => flags,
    }
}

/// One step of the scan on a non-help token.
pub open spec fn parse_step(st: ParseState, t: Seq<char>) -> ParseState {
    if starts_dashdash(t) && has_eq(t) {
        ParseState {
            args: st.args.insert(
                strip_dd(t.subrange(0, first_eq(t))),
                t.subrange(first_eq(t) + 1, t.len() as int),
            ),
            ..st
        }
    } else if starts_dashdash(t) {
        ParseState {
            flags: flush_flags(st.flags, st.pending),
            pending: Some(strip_dd(t)),
            ..st
        }
    } else if starts_dash(t) && t.len() > 1 {
        ParseState {
            flags: flush_flags(st.flags, st.pending),
            pending: Some(strip_d(t)),
            ..st
        }
    } else if st.pending is Some {
        ParseState { args: st.args.insert(opt_val(st.pending), t), pending: None, ..st }
    } else {
        ParseState { positional: st.positional.push(t), ..st }
    }
}

/// The whole scan: folds `parse_step` over the tokens; a help token stops
/// it where it stands (the pending key is discarded), and otherwise the
/// pending key is flushed at the end.  The second component reports the
/// help stop.
pub open spec fn parse_run(st: ParseState, toks: Seq<Seq<char>>) -> (ParseState, bool)
    decreases toks.len(),
{
    if toks.len() == 0 {
        (ParseState { flags: flush_flags(st.flags, st.pending), pending: None, ..st }, false)
    } else if is_help(toks[0]) {
        (st, true)
    } else {
        parse_run(parse_step(st, toks[0]), toks.drop_first())
    }
}

/// The tokens a scan reads: every argument after the leading program name.
pub open spec fn arg_tokens(args: Seq<String>) -> Seq<Seq<char>> {
    if args.len() == 0 {
        Seq::empty()
    } else {
        args.map_values(|a: String| a@).drop_first()
    }
}

/// The scanner, with the scanned-out table, flags and positionals.
pub struct ArgParser {
    program_name: String,
    args: StrMap,
    flags: Vec<String>,
    positional: Vec<String>,
    description: String,
}

impl ArgParser {
    /// The scanner's invariant.
    pub closed spec fn wf(self) -> bool {
        self.args.wf()
    }

    /// The program name shown in help.
    pub closed spec fn spec_program_name(self) -> Seq<char> {
        self.program_name@
    }

    /// The description shown in help.
    pub closed spec fn spec_description(self) -> Seq<char> {
        self.description@
    }

    /// The key/value table scanned so far.
    pub closed spec fn spec_args(self) -> Map<Seq<char>, Seq<char>> {
        Map::new(
            |k: Seq<char>| self.args.spec_get(k) is Some,
            |k: Seq<char>| opt_val(self.args.spec_get(k)),
        )
    }

    /// The flags scanned so far, in order.
    pub closed spec fn spec_flags(self) -> Seq<Seq<char>> {
        self.flags@.map_values(|s: String| s@)
    }

    /// The positionals scanned so far, in order.
    pub closed spec fn spec_positional(self) -> Seq<Seq<char>> {
        self.positional@.map_values(|s: String| s@)
    }

    /// A fresh scanner for the named program: everything empty.
    pub fn new(program_name: &str) -> (r: ArgParser)
        ensures
            r.wf(),
            r.spec_program_name() == program_name@,
            r.spec_description() == Seq::<char>::empty(),
            r.spec_args() =~= Map::<Seq<char>, Seq<char>>::empty(),
            r.spec_flags() =~= Seq::<Seq<char>>::empty(),
            r.spec_positional() =~= Seq::<Seq<char>>::empty(),
    {
        let r = ArgParser {
            program_name: String::from_str(program_name),
            args: StrMap::new(),
            flags: Vec::new(),
            positional: Vec::new(),
            description: String::new(),
        };
        proof {
            assert(r.spec_args() =~= Map::<Seq<char>, Seq<char>>::empty());
            assert(r.spec_flags() =~= Seq::<Seq<char>>::empty());
            assert(r.spec_positional() =~= Seq::<Seq<char>>::empty());
        }
        r
    }

    /// The same scanner with the description replaced.
    pub fn with_description(self, description: &str) -> (r: ArgParser)
        ensures
            r.wf() == self.wf(),
            r.spec_description() == description@,
            r.spec_program_name() == self.spec_program_name(),
            r.spec_args() == self.spec_args(),
            r.spec_flags() == self.spec_flags(),
            r.spec_positional() == self.spec_positional(),
    {
        let r = ArgParser { description: String::from_str(description), ..self };
        proof {
            assert(r.spec_args() =~= self.spec_args());
        }
        r
    }

    /// Scans the tokens after the leading program name into the table,
    /// flags and positionals, exactly as `parse_run` folds them.  A help
    /// token prints the help text and stops the scan with an error; the
    /// entries scanned before it stay.
    pub fn parse(&mut self, args: &Vec<String>) -> (r: Result<(), CliError>)
        requires
            old(self).wf(),
        ensures
            final(self).wf(),
            final(self).spec_program_name() == old(self).spec_program_name(),
            final(self).spec_description() == old(self).spec_description(),
            ({
                let outcome = parse_run(
                    (ParseState {
                        args: old(self).spec_args(),
                        flags: old(self).spec_flags(),
                        positional: old(self).spec_positional(),
                        pending: None,
                    }),
                    arg_tokens(args@),
                );
                &&& (r is Err <==> outcome.1)
                &&& (r matches Err(e) ==> (e matches CliError::Unknown(m) && m@ == "show help"@))
                &&& final(self).spec_args() == outcome.0.args
                &&& final(self).spec_flags() == outcome.0.flags
                &&& final(self).spec_positional() == outcome.0.positional
            }),
    {
        let ghost toks = arg_tokens(args@);
        let ghost init = ParseState {
            args: self.spec_args(),
            flags: self.spec_flags(),
            positional: self.spec_positional(),
            pending: None,
        };
        let n = args.len();
        if n == 0 {
            return Ok(());
        }
        let mut pending: Option<String> = None;
        let mut i: usize = 1;
        proof {
            assert(toks.skip(0) =~= toks);
        }
        while i < n
            invariant
                self.wf(),
                1 <= i <= n,
                n == args@.len(),
                toks == arg_tokens(args@),
                toks.len() == n - 1,
                init == (ParseState {
                    args: old(self).spec_args(),
                    flags: old(self).spec_flags(),
                    positional: old(self).spec_positional(),
                    pending: None,
                }),
                self.spec_program_name() == old(self).spec_program_name(),
                self.spec_description() == old(self).spec_description(),
                parse_run(init, toks) == parse_run(
                    (ParseState {
                        args: self.spec_args(),
                        flags: self.spec_flags(),
                        positional: self.spec_positional(),
                        pending: opt_view(pending),
                    }),
                    toks.skip(i - 1),
                ),
            decreases n - i,
        {
            let ghost cur = ParseState {
                args: self.spec_args(),
                flags: self.spec_flags(),
                positional: self.spec_positional(),
                pending: opt_view(pending),
            };
            let t = &args[i];
            proof {
                assert(toks[i - 1] == t@);
                assert(toks.skip(i - 1).len() > 0);
                assert(toks.skip(i - 1)[0] == toks[i - 1]);
                assert(toks.skip(i - 1).drop_first() =~= toks.skip(i as int));
            }
            if str_eq(t.as_str(), "--help") || str_eq(t.as_str(), "-h") {
                self.print_help();
                proof {
                    assert(is_help(toks[i - 1]));
                    assert(parse_run(cur, toks.skip(i - 1)) == (cur, true));
                    assert(parse_run(init, toks) == (cur, true));
                }
                return Err(unknown_error("show help"));
            }
            proof {
                assert(!is_help(toks[i - 1]));
            }
            let dd = tok_starts_dashdash(t.as_str());
            if dd {
                match find_eq(t.as_str()) {
                    Some(eqi) => {
                        let tlen = t.unicode_len();
                        let head = t.substring_char(0, eqi);
                        let key = strip_dashdash(head);
                        let value = t.substring_char(eqi + 1, tlen);
                        self.args.insert(key, value);
                        proof {
                            assert(self.spec_args() =~= cur.args.insert(key@, value@));
                        }
                    },
                    None => {
                        let stripped = String::from_str(strip_dashdash(t.as_str()));
                        let prev = pending;
                        pending = Some(stripped);
                        match prev {
                            Some(p) => {
                                self.flags.push(p);
                                proof {
                                    assert(self.spec_flags() =~= cur.flags.push(p@));
                                }
                            },
                            None => (),
                        }
                    },
                }
            } else if tok_starts_dash(t.as_str()) && t.unicode_len() > 1 {
                let stripped = String::from_str(strip_dash(t.as_str()));
                let prev = pending;
                pending = Some(stripped);
                match prev {
                    Some(p) => {
                        self.flags.push(p);
                        proof {
                            assert(self.spec_flags() =~= cur.flags.push(p@));
                        }
                    },
                    None => (),
                }
            } else if pending.is_some() {
                let prev = pending;
                pending = None;
                match prev {
                    Some(p) => {
                        self.args.insert(p.as_str(), t.as_str());
                        proof {
                            assert(self.spec_args() =~= cur.args.insert(opt_val(cur.pending), t@));
                        }
                    },
                    None => (),
                }
            } else {
                self.positional.push(t.clone());
                proof {
                    assert(self.spec_positional() =~= cur.positional.push(t@));
                }
            }
            proof {
                let stepped = parse_step(cur, toks[i - 1]);
                assert(self.spec_args() == stepped.args);
                assert(self.spec_flags() == stepped.flags);
                assert(self.spec_positional() == stepped.positional);
                assert(opt_view(pending) == stepped.pending);
                assert((ParseState {
                    args: self.spec_args(),
                    flags: self.spec_flags(),
                    positional: self.spec_positional(),
                    pending: opt_view(pending),
                }) == stepped);
            }
            i = i + 1;
        }
        let ghost cur = ParseState {
            args: self.spec_args(),
            flags: self.spec_flags(),
            positional: self.spec_positional(),
            pending: opt_view(pending),
        };
        proof {
            assert(toks.skip(i - 1) =~= Seq::<Seq<char>>::empty());
        }
        let prev = pending;
        match prev {
            Some(p) => {
                self.flags.push(p);
                proof {
                    assert(self.spec_flags() =~= cur.flags.push(p@));
                }
            },
            None => (),
        }
        proof {
            assert(self.spec_flags() == flush_flags(cur.flags, cur.pending));
        }
        Ok(())
    }

    /// The help text: title, optional description, usage, and the option
    /// list, exactly `help_text_of` of the name and description.
    pub fn help_text(&self) -> (r: String)
        ensures
            r@ == help_text_of(self.spec_program_name(), self.spec_description()),
    {
        let mut s = String::from_str("-- ");
        s.append(self.program_name.as_str());
        s.append(" --\n");
        if !self.description.as_str().is_empty() {
            s.append(self.description.as_str());
            s.append("\n");
        }
        s.append("\n使い方:\n  ");
        s.append(self.program_name.as_str());
        s.append(" [オプション] [引数...]\n\nオプション:\n  -h, --help    このヘルプメッセージを表示して終了");
        s
    }

    /// Writes the help text to the terminal.
    pub fn print_help(&self) {
        let text = self.help_text();
        term::emit_text_line(text.as_str());
    }

    /// The value bound to `key`, if any.
    pub fn get(&self, key: &str) -> (r: Option<&String>)
        requires
            self.wf(),
        ensures
            (r matches Some(v) ==> self.spec_args().contains_key(key@) && self.spec_args()[key@]
                == v@),
            (r is None ==> !self.spec_args().contains_key(key@)),
    {
        self.args.get(key)
    }

    /// Whether `flag` was scanned as a flag.
    pub fn has_flag(&self, flag: &str) -> (r: bool)
        ensures
            r == self.spec_flags().contains(flag@),
    {
        let n = self.flags.len();
        let mut i: usize = 0;
        while i < n
            invariant
                i <= n,
                n == self.flags@.len(),
                forall|j: int| 0 <= j < i ==> self.spec_flags()[j] != flag@,
                self.spec_flags().len() == n,
            decreases n - i,
        {
            if str_eq(self.flags[i].as_str(), flag) {
                proof {
                    assert(self.spec_flags()[i as int] == flag@);
                }
                return true;
            }
            i = i + 1;
        }
        proof {
            assert(!self.spec_flags().contains(flag@));
        }
        false
    }

    /// The positional token at `index`, if any.
    pub fn get_positional(&self, index: usize) -> (r: Option<&String>)
        ensures
            (index < self.spec_positional().len() ==> (r matches Some(v) && v@
                == self.spec_positional()[index as int])),
            (index >= self.spec_positional().len() ==> r is None),
    {
        if index < self.positional.len() {
            Some(&self.positional[index])
        } else {
            None
        }
    }

    /// How many positional tokens were scanned.
    pub fn positional_count(&self) -> (r: usize)
        ensures
            r == self.spec_positional().len(),
    {
        self.positional.len()
    }

    /// All positional tokens, in order.
    pub fn get_all_positional(&self) -> (r: &[String])
        ensures
            r@.map_values(|s: String| s@) == self.spec_positional(),
    {
        let r = self.positional.as_slice();
        proof {
            assert(r@.map_values(|s: String| s@) =~= self.spec_positional());
        }
        r
    }
}

/// The help text for a program name and description: the title line, the
/// description when one is set, then usage and the option list.
pub open spec fn help_text_of(name: Seq<char>, description: Seq<char>) -> Seq<char> {
    "-- "@ + name + " --\n"@ + (if description.len() > 0 {
        description + "\n"@
    } else {
        Seq::<char>::empty()
    }) + "\n使い方:\n  "@ + name
        + " [オプション] [引数...]\n\nオプション:\n  -h, --help    このヘルプメッセージを表示して終了"@
}

} // verus!
