use vstd::prelude::*;
use crate::enums::ArgType;
use crate::hints::opt_view;
use crate::utils::to_chars;
use crate::utils::order::{
    chars_le,
    in_order,
    Keyed,
    lemma_lex_total,
    lemma_lex_transitive,
    lex_le,
    sort_by_key,
};
use vstd::string::StringExecFns;

verus! {

/// A command to run before or after the one that was typed, if any.
pub type CommandString = Option<String>;

/// What is known of the arguments of one command.
#[derive(Debug)]
pub struct ConfigCommand {
    /// The first word of a command line that this description is for.
    pub exe_name: String,
    /// What is run in place of `exe_name`.
    pub exe_to: String,
    pub execute_before: CommandString,
    pub execute_after: CommandString,
    /// The positional arguments; the first stands for the command itself.
    pub args: Vec<SingleArg>,
    pub flags: Vec<Flag>,
    pub arg_flags: Vec<FlagArgPair>,
}

/// A positional argument.
#[derive(Debug)]
pub struct SingleArg {
    pub arg_type: ArgType,
    /// Shown in place of the argument while it has not been typed.
    pub arg_hint: String,
    /// Which of the positional arguments this is, counted from 1.
    pub arg_pos: usize,
}

/// A flag that takes no argument.
#[derive(Debug)]
pub struct Flag {
    pub flag_name: String,
    /// What is run in place of `flag_name`.
    pub flag_to: String,
    pub execute_before: CommandString,
    pub execute_after: CommandString,
}

/// A flag that is followed by one argument.
#[derive(Debug)]
pub struct FlagArgPair {
    pub flag_name: String,
    /// What is run in place of `flag_name`.
    pub flag_to: String,
    pub arg_type: ArgType,
    /// Shown in place of the argument while it has not been typed.
    pub arg_hint: String,
    pub execute_before: CommandString,
    pub execute_after: CommandString,
}

pub ghost struct SingleArgView {
    pub arg_type: ArgType,
    pub arg_hint: Seq<char>,
    pub arg_pos: nat,
}

pub ghost struct FlagView {
    pub flag_name: Seq<char>,
    pub flag_to: Seq<char>,
    pub execute_before: Option<Seq<char>>,
    pub execute_after: Option<Seq<char>>,
}

pub ghost struct FlagArgPairView {
    pub flag_name: Seq<char>,
    pub flag_to: Seq<char>,
    pub arg_type: ArgType,
    pub arg_hint: Seq<char>,
    pub execute_before: Option<Seq<char>>,
    pub execute_after: Option<Seq<char>>,
}

pub ghost struct CommandView {
    pub exe_name: Seq<char>,
    pub exe_to: Seq<char>,
    pub execute_before: Option<Seq<char>>,
    pub execute_after: Option<Seq<char>>,
    pub args: Seq<SingleArgView>,
    pub flags: Seq<FlagView>,
    pub arg_flags: Seq<FlagArgPairView>,
}

impl View for SingleArg {
    type V = SingleArgView;

    open spec fn view(&self) -> SingleArgView {
        SingleArgView {
            arg_type: self.arg_type,
            arg_hint: self.arg_hint@,
            arg_pos: self.arg_pos as nat,
        }
    }
}

impl View for Flag {
    type V = FlagView;

    open spec fn view(&self) -> FlagView {
        FlagView {
            flag_name: self.flag_name@,
            flag_to: self.flag_to@,
            execute_before: opt_view(self.execute_before),
            execute_after: opt_view(self.execute_after),
        }
    }
}

impl View for FlagArgPair {
    type V = FlagArgPairView;

    open spec fn view(&self) -> FlagArgPairView {
        FlagArgPairView {
            flag_name: self.flag_name@,
            flag_to: self.flag_to@,
            arg_type: self.arg_type,
            arg_hint: self.arg_hint@,
            execute_before: opt_view(self.execute_before),
            execute_after: opt_view(self.execute_after),
        }
    }
}

impl View for ConfigCommand {
    type V = CommandView;

    open spec fn view(&self) -> CommandView {
        CommandView {
            exe_name: self.exe_name@,
            exe_to: self.exe_to@,
            execute_before: opt_view(self.execute_before),
            execute_after: opt_view(self.execute_after),
            args: self.args@.map_values(|a: SingleArg| a@),
            flags: self.flags@.map_values(|f: Flag| f@),
            arg_flags: self.arg_flags@.map_values(|p: FlagArgPair| p@),
        }
    }
}

/// A copy of an optional string.
pub fn clone_opt(s: &Option<String>) -> (r: Option<String>)
    ensures
        opt_view(r) == opt_view(*s),
{
    match s {
        Some(s) => Some(s.clone()),
        None => None,
    }
}

impl SingleArg {
    pub fn arg_type(&self) -> (r: ArgType)
        ensures
            r == self.arg_type,
    {
        self.arg_type
    }

    pub fn arg_hint(&self) -> (r: &str)
        ensures
            r@ == self.arg_hint@,
    {
        self.arg_hint.as_str()
    }
}

impl Clone for SingleArg {
    fn clone(&self) -> (r: Self)
        ensures
            r@ == self@,
    {
        Self { arg_type: self.arg_type, arg_hint: self.arg_hint.clone(), arg_pos: self.arg_pos }
    }
}

impl Flag {
    pub fn flag_name(&self) -> (r: &str)
        ensures
            r@ == self.flag_name@,
    {
        self.flag_name.as_str()
    }
}

impl crate::utils::Named for Flag {
    open spec fn spec_name(&self) -> Seq<char> {
        self.flag_name@
    }

    fn name(&self) -> (r: &String) {
        &self.flag_name
    }
}

impl Clone for Flag {
    fn clone(&self) -> (r: Self)
        ensures
            r@ == self@,
    {
        Self {
            flag_name: self.flag_name.clone(),
            flag_to: self.flag_to.clone(),
            execute_before: clone_opt(&self.execute_before),
            execute_after: clone_opt(&self.execute_after),
        }
    }
}

impl FlagArgPair {
    pub fn flag_name(&self) -> (r: &str)
        ensures
            r@ == self.flag_name@,
    {
        self.flag_name.as_str()
    }

    pub fn arg_type(&self) -> (r: ArgType)
        ensures
            r == self.arg_type,
    {
        self.arg_type
    }

    pub fn arg_hint(&self) -> (r: &str)
        ensures
            r@ == self.arg_hint@,
    {
        self.arg_hint.as_str()
    }
}

impl crate::utils::Named for FlagArgPair {
    open spec fn spec_name(&self) -> Seq<char> {
        self.flag_name@
    }

    fn name(&self) -> (r: &String) {
        &self.flag_name
    }
}

impl Clone for FlagArgPair {
    fn clone(&self) -> (r: Self)
        ensures
            r@ == self@,
    {
        Self {
            flag_name: self.flag_name.clone(),
            flag_to: self.flag_to.clone(),
            arg_type: self.arg_type,
            arg_hint: self.arg_hint.clone(),
            execute_before: clone_opt(&self.execute_before),
            execute_after: clone_opt(&self.execute_after),
        }
    }
}

impl Clone for ConfigCommand {
    fn clone(&self) -> (r: Self)
        ensures
            r@ == self@,
    {
        let mut args: Vec<SingleArg> = Vec::new();
        let mut i: usize = 0;
        while i < self.args.len()
            invariant
                i <= self.args@.len(),
                args@.len() == i,
                forall|j: int| 0 <= j < i ==> args@[j]@ == self.args@[j]@,
            decreases self.args@.len() - i,
        {
            args.push(self.args[i].clone());
            i += 1;
        }
        let mut flags: Vec<Flag> = Vec::new();
        let mut i: usize = 0;
        while i < self.flags.len()
            invariant
                i <= self.flags@.len(),
                flags@.len() == i,
                forall|j: int| 0 <= j < i ==> flags@[j]@ == self.flags@[j]@,
            decreases self.flags@.len() - i,
        {
            flags.push(self.flags[i].clone());
            i += 1;
        }
        let mut arg_flags: Vec<FlagArgPair> = Vec::new();
        let mut i: usize = 0;
        while i < self.arg_flags.len()
            invariant
                i <= self.arg_flags@.len(),
                arg_flags@.len() == i,
                forall|j: int| 0 <= j < i ==> arg_flags@[j]@ == self.arg_flags@[j]@,
            decreases self.arg_flags@.len() - i,
        {
            arg_flags.push(self.arg_flags[i].clone());
            i += 1;
        }
        let r = Self {
            exe_name: self.exe_name.clone(),
            exe_to: self.exe_to.clone(),
            execute_before: clone_opt(&self.execute_before),
            execute_after: clone_opt(&self.execute_after),
            args,
            flags,
            arg_flags,
        };
        assert(r@.args =~= self@.args);
        assert(r@.flags =~= self@.flags);
        assert(r@.arg_flags =~= self@.arg_flags);
        r
    }
}

impl Default for ConfigCommand {
    fn default() -> (r: Self)
        ensures
            r@ == empty_command(),
    {
        let r = Self {
            exe_name: String::new(),
            exe_to: String::new(),
            execute_before: None,
            execute_after: None,
            args: Vec::new(),
            flags: Vec::new(),
            arg_flags: Vec::new(),
        };
        assert(r@.args =~= Seq::empty());
        assert(r@.flags =~= Seq::empty());
        assert(r@.arg_flags =~= Seq::empty());
        r
    }
}

/// The description that says nothing: no name and no arguments.
pub open spec fn empty_command() -> CommandView {
    CommandView {
        exe_name: Seq::empty(),
        exe_to: Seq::empty(),
        execute_before: None,
        execute_after: None,
        args: Seq::empty(),
        flags: Seq::empty(),
        arg_flags: Seq::empty(),
    }
}

impl Keyed for SingleArg {
    open spec fn key_le(&self, other: &Self) -> bool {
        self.arg_pos <= other.arg_pos
    }

    fn le(&self, other: &Self) -> (r: bool) {
        self.arg_pos <= other.arg_pos
    }

    proof fn lemma_total(a: &Self, b: &Self) {
    }

    proof fn lemma_transitive(a: &Self, b: &Self, c: &Self) {
    }
}

impl Keyed for Flag {
    open spec fn key_le(&self, other: &Self) -> bool {
        lex_le(self.flag_name@, other.flag_name@)
    }

    fn le(&self, other: &Self) -> (r: bool) {
        chars_le(to_chars(self.flag_name.as_str()).as_slice(), to_chars(other.flag_name.as_str()).as_slice())
    }

    proof fn lemma_total(a: &Self, b: &Self) {
        lemma_lex_total(a.flag_name@, b.flag_name@);
    }

    proof fn lemma_transitive(a: &Self, b: &Self, c: &Self) {
        lemma_lex_transitive(a.flag_name@, b.flag_name@, c.flag_name@);
    }
}

impl Keyed for FlagArgPair {
    open spec fn key_le(&self, other: &Self) -> bool {
        lex_le(self.flag_name@, other.flag_name@)
    }

    fn le(&self, other: &Self) -> (r: bool) {
        chars_le(to_chars(self.flag_name.as_str()).as_slice(), to_chars(other.flag_name.as_str()).as_slice())
    }

    proof fn lemma_total(a: &Self, b: &Self) {
        lemma_lex_total(a.flag_name@, b.flag_name@);
    }

    proof fn lemma_transitive(a: &Self, b: &Self, c: &Self) {
        lemma_lex_transitive(a.flag_name@, b.flag_name@, c.flag_name@);
    }
}

/// Each positional argument is declared for a later position than those
/// before it.
pub open spec fn positions_increase(args: Seq<SingleArg>) -> bool {
    forall|i: int, j: int| 0 <= i < j < args.len() ==> args[i].arg_pos < args[j].arg_pos
}

/// Whether each positional argument is declared for a later position
/// than those before it.
pub fn check_positions(args: &[SingleArg]) -> (r: bool)
    ensures
        r == positions_increase(args@),
{
    let mut i: usize = 1;
    while i < args.len()
        invariant
            1 <= i,
            forall|a: int, b: int| 0 <= a < b < i && b < args@.len() ==> args@[a].arg_pos < args@[b].arg_pos,
        decreases args@.len() - i,
    {
        if args[i - 1].arg_pos >= args[i].arg_pos {
            return false;
        }
        i += 1;
    }
    true
}

/// The positional argument that stands for the command itself.
pub open spec fn is_command_slot(arg: SingleArg) -> bool {
    arg@ == (SingleArgView { arg_type: ArgType::Executable, arg_hint: Seq::empty(), arg_pos: 0 })
}

impl ConfigCommand {
    /// Makes the description that was read for the command `exe_name`
    /// ready for use: it gets that name and a positional argument for the
    /// command itself, its positional arguments are put in the order of
    /// their positions, and its flags in the order of their names.
    /// Nothing comes of a description that declares two arguments for one
    /// position.
    pub fn prepare(self, exe_name: String) -> (r: Option<Self>)
        ensures
            match r {
                Some(c) => {
                    &&& c.exe_name == exe_name
                    &&& c.exe_to == self.exe_to
                    &&& c.execute_before == self.execute_before
                    &&& c.execute_after == self.execute_after
                    &&& exists|slot: SingleArg| is_command_slot(slot) && c.args@.to_multiset() == self.args@.push(
                        slot,
                    ).to_multiset()
                    &&& positions_increase(c.args@)
                    &&& in_order(c.flags@)
                    &&& c.flags@.to_multiset() == self.flags@.to_multiset()
                    &&& in_order(c.arg_flags@)
                    &&& c.arg_flags@.to_multiset() == self.arg_flags@.to_multiset()
                },
                None => exists|slot: SingleArg, sorted: Seq<SingleArg>|
                    is_command_slot(slot) && in_order(sorted) && sorted.to_multiset() == self.args@.push(
                        slot,
                    ).to_multiset() && !positions_increase(sorted),
            },
    {
        let ConfigCommand { exe_name: _, exe_to, execute_before, execute_after, args, flags, arg_flags } = self;
        let mut args = args;
        let main_arg = SingleArg { arg_type: ArgType::Executable, arg_hint: String::new(), arg_pos: 0 };
        assert(is_command_slot(main_arg));
        args.push(main_arg);
        let args = sort_by_key(args);
        if !check_positions(args.as_slice()) {
            return None;
        }
        let flags = sort_by_key(flags);
        let arg_flags = sort_by_key(arg_flags);
        Some(ConfigCommand { exe_name, exe_to, execute_before, execute_after, args, flags, arg_flags })
    }
}

/// The description of `mv`: it is run as `move` and takes the path to
/// move and the path to move it to.
pub open spec fn default_move() -> CommandView {
    CommandView {
        exe_name: "mv"@,
        exe_to: "move"@,
        execute_before: None,
        execute_after: None,
        args: seq![
            SingleArgView { arg_type: ArgType::Path, arg_hint: "src"@, arg_pos: 1 },
            SingleArgView { arg_type: ArgType::Path, arg_hint: "dst"@, arg_pos: 2 },
        ],
        flags: Seq::empty(),
        arg_flags: Seq::empty(),
    }
}

/// The descriptions that a new configuration starts with.
pub fn create_defaults() -> (r: Vec<ConfigCommand>)
    ensures
        r@.len() == 1,
        r@[0]@ == default_move(),
{
    let mut args: Vec<SingleArg> = Vec::new();
    args.push(SingleArg { arg_type: ArgType::Path, arg_hint: String::from_str("src"), arg_pos: 1 });
    args.push(SingleArg { arg_type: ArgType::Path, arg_hint: String::from_str("dst"), arg_pos: 2 });
    let move_default = ConfigCommand {
        exe_name: String::from_str("mv"),
        exe_to: String::from_str("move"),
        execute_before: None,
        execute_after: None,
        args,
        flags: Vec::new(),
        arg_flags: Vec::new(),
    };
    assert(move_default@.args =~= default_move().args);
    assert(move_default@.flags =~= default_move().flags);
    assert(move_default@.arg_flags =~= default_move().arg_flags);
    let mut r: Vec<ConfigCommand> = Vec::new();
    r.push(move_default);
    r
}

} // verus!
