use vstd::prelude::*;
use crate::config::command::{CommandView, ConfigCommand, empty_command};
use crate::enums::ArgType;
use crate::state::ProgramState;
use crate::utils::{
    binary_search_with_exclude,
    contains_index,
    first_free,
    first_free_from,
    name_hits,
    names_in_order,
    names_of,
    names_sorted,
};


verus! {

/// What one word of the command line is, by the description of its
/// command. The numbers are indices into the description's tables.
#[derive(Debug, Clone, Copy, PartialEq, Eq, Structural)]
pub enum Argument {
    /// A word that the description does not account for.
    Other,
    /// The flag `flags[k]`.
    Flag(usize),
    /// The positional argument `args[k]`.
    Arg(usize),
    /// The flag `arg_flags[k]`, which takes the next word as its argument.
    ArgFlag(usize),
}

/// Finds the description of the command that is being typed and keeps it
/// while the first word stays the same.
#[derive(Debug)]
pub struct ArgumentParser {
    has_command: bool,
    current_cmd: ConfigCommand,
    first_arg: String,
}

pub ghost struct ParserView {
    pub has_command: bool,
    pub cmd: CommandView,
    pub first_arg: Seq<char>,
}

impl View for ArgumentParser {
    type V = ParserView;

    closed spec fn view(&self) -> ParserView {
        ParserView {
            has_command: self.has_command,
            cmd: self.current_cmd@,
            first_arg: self.first_arg@,
        }
    }
}

/// The least index at or after `from` of a command that `name` triggers.
pub open spec fn first_named_from(commands: Seq<ConfigCommand>, name: Seq<char>, from: int) -> Option<int>
    decreases commands.len() - from,
{
    if from < 0 || from >= commands.len() {
        None
    } else if commands[from].exe_name@ == name {
        Some(from)
    } else {
        first_named_from(commands, name, from + 1)
    }
}

/// `first_named_from` finds the least index at or after `from` of a command
/// with that name, and nothing exactly when there is none.
pub proof fn lemma_first_named_from(commands: Seq<ConfigCommand>, name: Seq<char>, from: int)
    requires
        0 <= from,
    ensures
        match first_named_from(commands, name, from) {
            Some(i) => {
                &&& from <= i < commands.len()
                &&& commands[i].exe_name@ == name
                &&& forall|j: int| from <= j < i ==> (#[trigger] commands[j]).exe_name@ != name
            },
            None => forall|j: int| from <= j < commands.len() ==> (#[trigger] commands[j]).exe_name@ != name,
        },
    decreases commands.len() - from,
{
    if from < commands.len() && commands[from].exe_name@ != name {
        lemma_first_named_from(commands, name, from + 1);
    }
}

/// The parser after the first word of the line has become `first_arg`.
/// Without a first word there is no command. A description that is held
/// stays while the first word is its name; otherwise the first description
/// of `commands` with that name is taken, and there is no command where
/// none has it.
pub open spec fn reinit_spec(
    parser: ParserView,
    first_arg: Option<Seq<char>>,
    commands: Seq<ConfigCommand>,
) -> ParserView {
    match first_arg {
        None => ParserView { has_command: false, ..parser },
        Some(arg) => {
            if parser.has_command && parser.cmd.exe_name == arg {
                ParserView { first_arg: arg, ..parser }
            } else {
                match first_named_from(commands, arg, 0) {
                    Some(i) => ParserView { has_command: true, cmd: commands[i]@, first_arg: arg },
                    None => ParserView { has_command: false, cmd: parser.cmd, first_arg: arg },
                }
            }
        },
    }
}

impl ArgumentParser {
    pub fn new() -> (r: Self)
        ensures
            r@ == (ParserView { has_command: false, cmd: empty_command(), first_arg: Seq::empty() }),
    {
        Self { has_command: false, current_cmd: ConfigCommand::default(), first_arg: String::new() }
    }

    /// Looks at the first word of the line again.
    pub fn reinit(&mut self, first_arg: Option<String>, program_state: &ProgramState)
        ensures
            final(self)@ == reinit_spec(
                old(self)@,
                crate::hints::opt_view(first_arg),
                program_state.config.commands@,
            ),
    {
        let ghost name = match crate::hints::opt_view(first_arg) {
            Some(arg) => arg,
            None => Seq::empty(),
        };
        match first_arg {
            Some(arg) => {
                if self.first_arg != arg {
                    self.first_arg = arg;
                }
            },
            None => {
                self.has_command = false;
                return ;
            },
        }
        if self.has_command {
            if self.first_arg != self.current_cmd.exe_name {
                self.has_command = false;
            }
        }
        if !self.has_command {
            let commands = &program_state.config.commands;
            let mut i: usize = 0;
            while i < commands.len()
                invariant
                    i <= commands@.len(),
                    commands@ == program_state.config.commands@,
                    !self.has_command,
                    crate::hints::opt_view(first_arg) == Some(name),
                    !(old(self)@.has_command && old(self)@.cmd.exe_name == name),
                    self.first_arg@ == name,
                    self.current_cmd@ == old(self)@.cmd,
                    first_named_from(commands@, name, 0) == first_named_from(commands@, name, i as int),
                decreases commands@.len() - i,
            {
                if commands[i].exe_name == self.first_arg {
                    self.has_command = true;
                    self.current_cmd = commands[i].clone();
                    return ;
                }
                i += 1;
            }
        }
    }

    pub fn cmd(&self) -> (r: &ConfigCommand)
        ensures
            r@ == self@.cmd,
            r@.args.len() <= usize::MAX,
            r@.flags.len() <= usize::MAX,
            r@.arg_flags.len() <= usize::MAX,
    {
        let r = &self.current_cmd;
        let _ = r.args.len();
        let _ = r.flags.len();
        let _ = r.arg_flags.len();
        r
    }

    pub fn has_command(&self) -> (r: bool)
        ensures
            r == self@.has_command,
    {
        self.has_command
    }

    pub fn first_arg(&self) -> (r: &str)
        ensures
            r@ == self@.first_arg,
    {
        self.first_arg.as_str()
    }
}

/// How far a walk over the words of a line has come.
pub ghost struct IterState {
    /// The index of the next word.
    pub arg_ind: nat,
    /// How many positional arguments have been met.
    pub count: nat,
    /// The positional arguments that have been met.
    pub arg_skips: Seq<usize>,
    /// The flags that have been met.
    pub flag_skips: Seq<usize>,
    /// The flags with an argument that have been met.
    pub arg_flag_skips: Seq<usize>,
}

/// The state before the first word.
pub open spec fn start_state() -> IterState {
    IterState {
        arg_ind: 0,
        count: 0,
        arg_skips: Seq::empty(),
        flag_skips: Seq::empty(),
        arg_flag_skips: Seq::empty(),
    }
}

/// The names of the flags.
pub open spec fn flag_names(cmd: CommandView) -> Seq<Seq<char>> {
    Seq::new(cmd.flags.len(), |i: int| cmd.flags[i].flag_name)
}

/// The names of the flags with an argument.
pub open spec fn pair_names(cmd: CommandView) -> Seq<Seq<char>> {
    Seq::new(cmd.arg_flags.len(), |i: int| cmd.arg_flags[i].flag_name)
}

/// For each flag with an argument, whether `token` is its name.
pub open spec fn pair_hits(cmd: CommandView, token: Seq<char>) -> Seq<bool> {
    Seq::new(cmd.arg_flags.len(), |i: int| cmd.arg_flags[i].flag_name == token)
}

/// For each flag, whether `token` is its name.
pub open spec fn flag_hits(cmd: CommandView, token: Seq<char>) -> Seq<bool> {
    Seq::new(cmd.flags.len(), |i: int| cmd.flags[i].flag_name == token)
}

/// For each positional argument, whether it is declared for position `count`.
pub open spec fn slot_hits(cmd: CommandView, count: nat) -> Seq<bool> {
    Seq::new(cmd.args.len(), |i: int| cmd.args[i].arg_pos == count)
}

/// One step of the walk: what the next word is, and the state behind it.
///
/// The first word is the command itself and takes the first positional
/// argument of the description. Any later word is, in this order of
/// precedence: a flag with an argument that was not met before, which also
/// takes the word behind it; a flag that was not met before; the positional
/// argument declared for the number of positional arguments met so far, if
/// it was not met before; or a word of no account. Among several entries
/// that fit, the first in its table is taken.
pub open spec fn next_spec(cmd: CommandView, args: Seq<Seq<char>>, st: IterState) -> Option<(Argument, IterState)> {
    if st.arg_ind >= args.len() {
        None
    } else if st.arg_ind == 0 {
        if cmd.args.len() > 0 {
            Some(
                (
                    Argument::Arg(0),
                    IterState { arg_ind: 1, count: st.count + 1, arg_skips: st.arg_skips.push(0), ..st },
                ),
            )
        } else {
            Some((Argument::Other, IterState { arg_ind: 1, count: st.count + 1, ..st }))
        }
    } else {
        let token = args[st.arg_ind as int];
        match first_free(pair_hits(cmd, token), st.arg_flag_skips) {
            Some(k) => Some(
                (
                    Argument::ArgFlag(k as usize),
                    IterState {
                        arg_ind: if st.arg_ind + 1 < args.len() {
                            st.arg_ind + 2
                        } else {
                            st.arg_ind + 1
                        },
                        arg_flag_skips: st.arg_flag_skips.push(k as usize),
                        ..st
                    },
                ),
            ),
            None => match first_free(flag_hits(cmd, token), st.flag_skips) {
                Some(k) => Some(
                    (
                        Argument::Flag(k as usize),
                        IterState {
                            arg_ind: st.arg_ind + 1,
                            flag_skips: st.flag_skips.push(k as usize),
                            ..st
                        },
                    ),
                ),
                None => match first_free(slot_hits(cmd, st.count), st.arg_skips) {
                    Some(k) => Some(
                        (
                            Argument::Arg(k as usize),
                            IterState {
                                arg_ind: st.arg_ind + 1,
                                count: st.count + 1,
                                arg_skips: st.arg_skips.push(k as usize),
                                ..st
                            },
                        ),
                    ),
                    None => Some((Argument::Other, IterState { arg_ind: st.arg_ind + 1, ..st })),
                },
            },
        }
    }
}

/// Whether the index that `argument` carries is one of its table in `cmd`.
pub open spec fn in_tables(cmd: CommandView, argument: Argument) -> bool {
    match argument {
        Argument::Other => true,
        Argument::Flag(k) => k < cmd.flags.len(),
        Argument::Arg(k) => k < cmd.args.len(),
        Argument::ArgFlag(k) => k < cmd.arg_flags.len(),
    }
}

/// A step of the walk names only entries that the description has.
pub proof fn lemma_next_in_tables(cmd: CommandView, args: Seq<Seq<char>>, st: IterState)
    requires
        cmd.args.len() <= usize::MAX,
        cmd.flags.len() <= usize::MAX,
        cmd.arg_flags.len() <= usize::MAX,
    ensures
        match next_spec(cmd, args, st) {
            Some((argument, next)) => in_tables(cmd, argument) && st.arg_ind < next.arg_ind <= args.len(),
            None => st.arg_ind >= args.len(),
        },
{
    if 0 < st.arg_ind < args.len() {
        let token = args[st.arg_ind as int];
        crate::utils::lemma_first_free_from(pair_hits(cmd, token), st.arg_flag_skips, 0);
        crate::utils::lemma_first_free_from(flag_hits(cmd, token), st.flag_skips, 0);
        crate::utils::lemma_first_free_from(slot_hits(cmd, st.count), st.arg_skips, 0);
    }
}

/// Walks the words of a command line and says what each of them is.
#[derive(Debug)]
pub struct ArgumentIterator<'a> {
    argument_parser: &'a ArgumentParser,
    arg_ind: usize,
    single_argument_count: usize,
    args: Vec<String>,
    arg_skips: Vec<usize>,
    flag_skips: Vec<usize>,
    arg_flag_skips: Vec<usize>,
    /// Whether the names of the flags were found to be in order.
    flags_sorted: bool,
    /// Whether the names of the flags with an argument were found to be
    /// in order.
    arg_flags_sorted: bool,
}

pub ghost struct ArgumentIteratorView {
    pub cmd: CommandView,
    pub args: Seq<Seq<char>>,
    pub state: IterState,
}

impl<'a> View for ArgumentIterator<'a> {
    type V = ArgumentIteratorView;

    closed spec fn view(&self) -> ArgumentIteratorView {
        ArgumentIteratorView {
            cmd: self.argument_parser@.cmd,
            args: self.args.deep_view(),
            state: IterState {
                arg_ind: self.arg_ind as nat,
                count: self.single_argument_count as nat,
                arg_skips: self.arg_skips@,
                flag_skips: self.flag_skips@,
                arg_flag_skips: self.arg_flag_skips@,
            },
        }
    }
}

impl<'a> ArgumentIterator<'a> {
    /// The walk has not counted more positional arguments than it has
    /// passed words, and has not passed more words than there are; and
    /// it knows of the tables of the description what it takes them for.
    pub open spec fn wf(&self) -> bool {
        self@.state.count <= self@.state.arg_ind <= self@.args.len() && self.knows_tables()
    }

    /// A table that the walk takes to be in order is in order.
    pub closed spec fn knows_tables(&self) -> bool {
        &&& self.flags_sorted ==> names_in_order(flag_names(self@.cmd))
        &&& self.arg_flags_sorted ==> names_in_order(pair_names(self@.cmd))
    }

    pub fn new(argument_parser: &'a ArgumentParser) -> (r: Self)
        ensures
            r.wf(),
            r@ == (ArgumentIteratorView {
                cmd: argument_parser@.cmd,
                args: Seq::empty(),
                state: start_state(),
            }),
    {
        let cmd = argument_parser.cmd();
        assert(names_of(cmd.flags@) =~= flag_names(cmd@));
        assert(names_of(cmd.arg_flags@) =~= pair_names(cmd@));
        let r = Self {
            argument_parser,
            arg_ind: 0,
            single_argument_count: 0,
            args: Vec::new(),
            arg_skips: Vec::new(),
            flag_skips: Vec::new(),
            arg_flag_skips: Vec::new(),
            flags_sorted: names_sorted(cmd.flags.as_slice()),
            arg_flags_sorted: names_sorted(cmd.arg_flags.as_slice()),
        };
        assert(r@.args =~= Seq::empty());
        r
    }

    /// Starts the walk over, on the words `args`.
    pub fn reinit(&mut self, args: Vec<String>)
        requires
            old(self).knows_tables(),
        ensures
            final(self).wf(),
            final(self)@ == (ArgumentIteratorView {
                cmd: old(self)@.cmd,
                args: args.deep_view(),
                state: start_state(),
            }),
    {
        self.arg_ind = 0;
        self.single_argument_count = 0;
        self.arg_skips.clear();
        self.flag_skips.clear();
        self.arg_flag_skips.clear();
        self.args = args;
    }

    /// Takes `arg` for a flag with an argument, if it names one that was
    /// not met before; the word behind it is then passed over too.
    fn process_arg_flags(&mut self, arg: &String) -> (r: Option<Argument>)
        requires
            old(self)@.state.arg_ind <= old(self)@.args.len(),
            old(self).knows_tables(),
        ensures
            final(self).knows_tables(),
            match first_free(pair_hits(old(self)@.cmd, arg@), old(self)@.state.arg_flag_skips) {
                Some(k) => {
                    &&& r == Some(Argument::ArgFlag(k as usize))
                    &&& final(self)@ == (ArgumentIteratorView {
                        state: IterState {
                            arg_ind: if old(self)@.state.arg_ind < old(self)@.args.len() {
                                old(self)@.state.arg_ind + 1
                            } else {
                                old(self)@.state.arg_ind
                            },
                            arg_flag_skips: old(self)@.state.arg_flag_skips.push(k as usize),
                            ..old(self)@.state
                        },
                        ..old(self)@
                    })
                },
                None => r is None && final(self)@ == old(self)@,
            },
    {
        let cmd = self.argument_parser.cmd();
        assert(name_hits(names_of(cmd.arg_flags@), arg@) =~= pair_hits(cmd@, arg@));
        assert(names_of(cmd.arg_flags@) =~= pair_names(cmd@));
        let k = binary_search_with_exclude(
            arg,
            cmd.arg_flags.as_slice(),
            self.arg_flag_skips.as_slice(),
            self.arg_flags_sorted,
        );
        if let Some(k) = k {
            if self.arg_ind < self.args.len() {
                self.arg_ind += 1;
            }
            self.arg_flag_skips.push(k);
            return Some(Argument::ArgFlag(k));
        }
        None
    }

    /// Takes `arg` for a flag, if it names one that was not met before.
    fn process_flags(&mut self, arg: &String) -> (r: Option<Argument>)
        requires
            old(self).knows_tables(),
        ensures
            final(self).knows_tables(),
            match first_free(flag_hits(old(self)@.cmd, arg@), old(self)@.state.flag_skips) {
                Some(k) => {
                    &&& r == Some(Argument::Flag(k as usize))
                    &&& final(self)@ == (ArgumentIteratorView {
                        state: IterState {
                            flag_skips: old(self)@.state.flag_skips.push(k as usize),
                            ..old(self)@.state
                        },
                        ..old(self)@
                    })
                },
                None => r is None && final(self)@ == old(self)@,
            },
    {
        let cmd = self.argument_parser.cmd();
        assert(name_hits(names_of(cmd.flags@), arg@) =~= flag_hits(cmd@, arg@));
        assert(names_of(cmd.flags@) =~= flag_names(cmd@));
        let k = binary_search_with_exclude(arg, cmd.flags.as_slice(), self.flag_skips.as_slice(), self.flags_sorted);
        if let Some(k) = k {
            self.flag_skips.push(k);
            return Some(Argument::Flag(k));
        }
        None
    }

    /// Takes the word for the positional argument that is declared for the
    /// number of positional arguments met so far, if it was not met before.
    fn process_args(&mut self) -> (r: Option<Argument>)
        requires
            old(self)@.state.count < usize::MAX,
            old(self).knows_tables(),
        ensures
            final(self).knows_tables(),
            match first_free(slot_hits(old(self)@.cmd, old(self)@.state.count), old(self)@.state.arg_skips) {
                Some(k) => {
                    &&& r == Some(Argument::Arg(k as usize))
                    &&& final(self)@ == (ArgumentIteratorView {
                        state: IterState {
                            count: old(self)@.state.count + 1,
                            arg_skips: old(self)@.state.arg_skips.push(k as usize),
                            ..old(self)@.state
                        },
                        ..old(self)@
                    })
                },
                None => r is None && final(self)@ == old(self)@,
            },
    {
        let cmd = self.argument_parser.cmd();
        let ghost hits = slot_hits(cmd@, self.single_argument_count as nat);
        let mut k: usize = 0;
        while k < cmd.args.len()
            invariant
                k <= cmd.args@.len(),
                cmd@ == self@.cmd,
                self@ == old(self)@,
                self.knows_tables(),
                self.single_argument_count < usize::MAX,
                hits == slot_hits(cmd@, self.single_argument_count as nat),
                first_free(hits, self.arg_skips@) == first_free_from(hits, self.arg_skips@, k as int),
            decreases cmd.args@.len() - k,
        {
            if cmd.args[k].arg_pos == self.single_argument_count && !contains_index(
                self.arg_skips.as_slice(),
                k,
            ) {
                self.single_argument_count += 1;
                self.arg_skips.push(k);
                return Some(Argument::Arg(k));
            }
            k += 1;
        }
        None
    }

    /// What the next word of the line is; `None` behind the last word.
    pub fn next(&mut self) -> (r: Option<Argument>)
        requires
            old(self).wf(),
        ensures
            final(self).wf(),
            match next_spec(old(self)@.cmd, old(self)@.args, old(self)@.state) {
                Some((argument, state)) => {
                    &&& r == Some(argument)
                    &&& in_tables(old(self)@.cmd, argument)
                    &&& final(self)@ == (ArgumentIteratorView { state, ..old(self)@ })
                },
                None => r is None && final(self)@ == old(self)@,
            },
    {
        let _ = self.argument_parser.cmd();
        proof {
            lemma_next_in_tables(self@.cmd, self@.args, self@.state);
        }
        if self.arg_ind >= self.args.len() {
            return None;
        }
        if self.arg_ind == 0 {
            self.arg_ind += 1;
            self.single_argument_count += 1;
            if self.argument_parser.cmd().args.len() > 0 {
                self.arg_skips.push(0);
                return Some(Argument::Arg(0));
            }
            return Some(Argument::Other);
        }
        let arg = self.args[self.arg_ind].clone();
        self.arg_ind += 1;

        let rtn = self.process_arg_flags(&arg);
        if rtn.is_some() {
            return rtn;
        }
        let rtn = self.process_flags(&arg);
        if rtn.is_some() {
            return rtn;
        }
        let rtn = self.process_args();
        if rtn.is_some() {
            return rtn;
        }
        Some(Argument::Other)
    }
}

/// What update of its hint an argument is owed: its kind, and the
/// placeholder to show while nothing of it has been typed.
pub ghost struct Slot {
    pub kind: ArgType,
    pub inlay: Option<Seq<char>>,
}

/// The slot of a word that gets no completions.
pub open spec fn text_slot() -> Slot {
    Slot { kind: ArgType::Text, inlay: None }
}

/// The slots of the words that one step of the walk passes. `first` says
/// that the step is on the first word of the line, which is always an
/// executable; `has_next` says that a word follows the one of the step.
pub open spec fn slots_of(cmd: CommandView, argument: Argument, first: bool, has_next: bool) -> Seq<Slot> {
    if first {
        seq![Slot { kind: ArgType::Executable, inlay: None }]
    } else {
        match argument {
            Argument::Other => seq![text_slot()],
            Argument::Flag(_) => seq![text_slot()],
            Argument::Arg(k) => seq![
                Slot { kind: cmd.args[k as int].arg_type, inlay: Some(cmd.args[k as int].arg_hint) },
            ],
            Argument::ArgFlag(k) => if has_next {
                seq![
                    text_slot(),
                    Slot {
                        kind: cmd.arg_flags[k as int].arg_type,
                        inlay: Some(cmd.arg_flags[k as int].arg_hint),
                    },
                ]
            } else {
                seq![text_slot()]
            },
        }
    }
}

/// The slots of the words from the state `st` on, by the description `cmd`.
pub open spec fn grammar_slots_from(cmd: CommandView, tokens: Seq<Seq<char>>, st: IterState) -> Seq<Slot>
    decreases tokens.len() - st.arg_ind,
{
    match next_spec(cmd, tokens, st) {
        None => Seq::empty(),
        Some((argument, next)) => slots_of(cmd, argument, st.arg_ind == 0, st.arg_ind + 1 < tokens.len())
            + grammar_slots_from(cmd, tokens, next),
    }
}

/// The slot of every word of a line. By the description of its command,
/// where the parser holds one; else the first word is an executable and
/// every other word a path.
pub open spec fn classification(parser: ParserView, tokens: Seq<Seq<char>>) -> Seq<Slot> {
    if parser.has_command {
        grammar_slots_from(parser.cmd, tokens, start_state())
    } else {
        Seq::new(
            tokens.len(),
            |i: int|
                if i == 0 {
                    Slot { kind: ArgType::Executable, inlay: None }
                } else {
                    Slot { kind: ArgType::Path, inlay: None }
                },
        )
    }
}

/// From any state of the walk on, every word that is left gets one slot.
pub proof fn lemma_grammar_slots_len(cmd: CommandView, tokens: Seq<Seq<char>>, st: IterState)
    requires
        st.arg_ind <= tokens.len(),
    ensures
        grammar_slots_from(cmd, tokens, st).len() == tokens.len() - st.arg_ind,
    decreases tokens.len() - st.arg_ind,
{
    match next_spec(cmd, tokens, st) {
        None => {},
        Some((argument, next)) => {
            lemma_grammar_slots_len(cmd, tokens, next);
        },
    }
}

/// Every word of a line gets one slot.
pub proof fn lemma_classification_len(parser: ParserView, tokens: Seq<Seq<char>>)
    ensures
        classification(parser, tokens).len() == tokens.len(),
{
    if parser.has_command {
        lemma_grammar_slots_len(parser.cmd, tokens, start_state());
    }
}

} // verus!
