use vstd::prelude::*;
use crate::buffer::{hints_refreshed, BufferView, Cursor, InputBuffer, Side};
use crate::gui::{ActionToExecute, ViewType};
use crate::hints::HintView;
use crate::input::InputEvent;
use crate::parser::{classification, reinit_spec, ArgumentParser, ParserView};
use crate::state::ProgramState;
use crate::utils::from_chars;

verus! {

/// What is to become of the view below the line.
#[derive(Debug, Clone, Copy, PartialEq, Eq, Structural)]
pub enum AdditionalViewAction {
    /// It stays as it is.
    Keep,
    SetTo(ViewType),
    Unset,
}

/// Asking for the view that is shown takes it away; asking for another
/// one shows that one.
pub open spec fn toggled(active_view: Option<ViewType>, target: ViewType) -> AdditionalViewAction {
    if active_view == Some(target) {
        AdditionalViewAction::Unset
    } else {
        AdditionalViewAction::SetTo(target)
    }
}

pub fn toggle_view_action(view_action: &mut AdditionalViewAction, active_view: Option<ViewType>, target: ViewType)
    ensures
        *final(view_action) == toggled(active_view, target),
{
    if let Some(active) = active_view {
        if active == target {
            *view_action = AdditionalViewAction::Unset;
        } else {
            *view_action = AdditionalViewAction::SetTo(target);
        }
    } else {
        *view_action = AdditionalViewAction::SetTo(target);
    }
}

/// What an event makes of the view below the line.
pub open spec fn view_action_of(input: InputEvent, active_view: Option<ViewType>) -> AdditionalViewAction {
    match input {
        InputEvent::CtrlS => toggled(active_view, ViewType::Explorer),
        InputEvent::CtrlD => toggled(active_view, ViewType::Dropdown),
        InputEvent::CtrlT => toggled(active_view, ViewType::Table),
        _ => AdditionalViewAction::Keep,
    }
}

/// What accepting the closest match of the current argument adds to the
/// line: what the match has beyond the text that is typed of it. Nothing
/// is added where the current argument has no match, or where the match
/// is shorter than what is typed.
pub open spec fn completion(line: BufferView) -> Seq<char> {
    let i = line.curr_arg as int;
    if i < line.num_args() && i < line.hints.len() {
        let hint: HintView = line.hints[i].1;
        let typed = line.splits[2 * i + 1] - line.splits[2 * i];
        match hint.last_closest_match {
            Some(m) => if hint.disregard <= typed && typed - hint.disregard <= m.len() {
                m.skip(typed - hint.disregard)
            } else {
                Seq::empty()
            },
            None => Seq::empty(),
        }
    } else {
        Seq::empty()
    }
}

/// The line after an event, before its arguments are told apart again.
pub open spec fn edited(line: BufferView, input: InputEvent) -> BufferView {
    let caret = line.main_cursor.position;
    match input {
        InputEvent::Esc => unselected(line),
        InputEvent::Backspace => line.select_to(line.move_target(Side::Left, 1, caret)).delete_between(),
        InputEvent::Delete => line.select_to(line.move_target(Side::Right, 1, caret)).delete_between(),
        InputEvent::Enter => line.clear_all(),
        InputEvent::Tab => line.insert_str(completion(line)),
        InputEvent::Character(c) => line.delete_between().insert_str(seq![c]),
        InputEvent::CtrlBackspace => line.select_to(line.jump_target(Side::Left, caret)).delete_between(),
        InputEvent::CtrlDelete => line.select_to(line.jump_target(Side::Left, caret)).delete_between(),
        InputEvent::ArrowLeft => unselected(line.with_main(line.move_target(Side::Left, 1, caret) as usize)),
        InputEvent::ArrowRight => unselected(line.with_main(line.move_target(Side::Right, 1, caret) as usize)),
        InputEvent::CtrlArrowLeft => unselected(line.with_main(line.jump_target(Side::Left, caret) as usize)),
        InputEvent::CtrlArrowRight => unselected(line.with_main(line.jump_target(Side::Right, caret) as usize)),
        InputEvent::AltArrowLeft => {
            let selecting = selection_started(line);
            selecting.with_secondary(
                selecting.move_target(Side::Left, 1, selecting.secondary_cursor.position) as usize,
                true,
            )
        },
        InputEvent::AltArrowRight => {
            let selecting = selection_started(line);
            selecting.with_secondary(
                selecting.move_target(Side::Right, 1, selecting.secondary_cursor.position) as usize,
                true,
            )
        },
        InputEvent::CtrlShiftArrowLeft => {
            let selecting = selection_started(line);
            selecting.with_secondary(
                selecting.jump_target(Side::Left, selecting.secondary_cursor.position) as usize,
                true,
            )
        },
        InputEvent::CtrlShiftArrowRight => {
            let selecting = selection_started(line);
            selecting.with_secondary(
                selecting.jump_target(Side::Right, selecting.secondary_cursor.position) as usize,
                true,
            )
        },
        _ => line,
    }
}

/// The line without a selection.
pub open spec fn unselected(line: BufferView) -> BufferView {
    BufferView { secondary_cursor: Cursor { active: false, ..line.secondary_cursor }, ..line }
}

/// The line with a selection, which starts at the caret if there was
/// none.
pub open spec fn selection_started(line: BufferView) -> BufferView {
    if line.secondary_cursor.active {
        line
    } else {
        line.with_secondary(line.main_cursor.position, true)
    }
}

/// Lets the line handle an event, and brings its arguments and hints up
/// to date. For `Enter` the line is emptied: by then it has been run. A
/// new size of the terminal is noted in `term_size`. The answer says what
/// is to become of the view below the line.
pub fn update_buffer<D: Fn(&String) -> bool, L: Fn(&String) -> Vec<String>>(
    input: InputEvent,
    program_state: &ProgramState,
    buffer: &mut InputBuffer,
    term_size: &mut (u16, u16),
    active_view: Option<ViewType>,
    arg_parser: &mut ArgumentParser,
    is_dir: &D,
    list_dir: &L,
) -> (r: AdditionalViewAction)
    requires
        old(buffer)@.wf(),
        forall|p: &String| #[trigger] is_dir.requires((p,)),
        forall|p: &String| #[trigger] list_dir.requires((p,)),
    ensures
        r == view_action_of(input, active_view),
        *final(term_size) == (match input {
            InputEvent::Resize(size) => size,
            _ => *old(term_size),
        }),
        refreshed(
            edited(old(buffer)@, input).retokenize(),
            old(arg_parser)@,
            program_state,
            is_dir,
            list_dir,
            final(buffer)@,
            final(arg_parser)@,
        ),
{
    let mut rtn = AdditionalViewAction::Keep;
    match input {
        InputEvent::Esc => buffer.unset_secondary_cursor(),
        InputEvent::Backspace => buffer.del_n(Side::Left, 1),
        InputEvent::Delete => buffer.del_n(Side::Right, 1),
        InputEvent::Enter => buffer.clear_all(),
        InputEvent::Tab => {
            let hint_arg = tab_completion(buffer);
            buffer.insert_str_main_cursor(hint_arg.as_str());
        },
        InputEvent::Character(c) => {
            buffer.del_betw_curs();
            buffer.insert_char_main_cursor(c);
        },
        InputEvent::CtrlBackspace => buffer.del_jump(Side::Left),
        InputEvent::CtrlDelete => buffer.del_jump(Side::Left),
        InputEvent::ArrowLeft => {
            let caret = *buffer.main_cur();
            let target = buffer.move_n(Side::Left, 1, &caret);
            buffer.main_cur_set(target);
            buffer.unset_secondary_cursor();
        },
        InputEvent::ArrowRight => {
            let caret = *buffer.main_cur();
            let target = buffer.move_n(Side::Right, 1, &caret);
            buffer.main_cur_set(target);
            buffer.unset_secondary_cursor();
        },
        InputEvent::CtrlArrowLeft => {
            let caret = *buffer.main_cur();
            let target = buffer.jump(Side::Left, &caret);
            buffer.main_cur_set(target);
            buffer.unset_secondary_cursor();
        },
        InputEvent::CtrlArrowRight => {
            let caret = *buffer.main_cur();
            let target = buffer.jump(Side::Right, &caret);
            buffer.main_cur_set(target);
            buffer.unset_secondary_cursor();
        },
        InputEvent::AltArrowLeft => {
            buffer.enable_sec_cur_if_not_active();
            let cursor = *buffer.sec_cur();
            let new_pos = buffer.move_n(Side::Left, 1, &cursor);
            buffer.sec_cur_set(new_pos, true)
        },
        InputEvent::AltArrowRight => {
            buffer.enable_sec_cur_if_not_active();
            let cursor = *buffer.sec_cur();
            let new_pos = buffer.move_n(Side::Right, 1, &cursor);
            buffer.sec_cur_set(new_pos, true);
        },
        InputEvent::CtrlShiftArrowLeft => {
            buffer.enable_sec_cur_if_not_active();
            let cursor = *buffer.sec_cur();
            let new_pos = buffer.jump(Side::Left, &cursor);
            buffer.sec_cur_set(new_pos, true)
        },
        InputEvent::CtrlShiftArrowRight => {
            buffer.enable_sec_cur_if_not_active();
            let cursor = *buffer.sec_cur();
            let new_pos = buffer.jump(Side::Right, &cursor);
            buffer.sec_cur_set(new_pos, true)
        },
        InputEvent::Resize(size) => {
            *term_size = size;
        },
        InputEvent::CtrlS => toggle_view_action(&mut rtn, active_view, ViewType::Explorer),
        InputEvent::CtrlD => toggle_view_action(&mut rtn, active_view, ViewType::Dropdown),
        InputEvent::CtrlT => toggle_view_action(&mut rtn, active_view, ViewType::Table),
        _ => (),
    }
    buffer.update();
    arg_parser.reinit(buffer.first_arg(), program_state);
    buffer.update_arguments(arg_parser, program_state, is_dir, list_dir);
    rtn
}

/// `after` and `parser_after` are the line `line` and the parser `parser`
/// brought up to date: the parser has looked at the first argument of
/// the line, and the line differs from `line` in its table of hints only,
/// which is brought up to date by what the parser holds then.
pub open spec fn refreshed<D: Fn(&String) -> bool, L: Fn(&String) -> Vec<String>>(
    line: BufferView,
    parser: ParserView,
    program_state: &ProgramState,
    is_dir: &D,
    list_dir: &L,
    after: BufferView,
    parser_after: ParserView,
) -> bool {
    let first = if line.num_args() > 0 {
        Some(line.arg_text(0))
    } else {
        None
    };
    &&& parser_after == reinit_spec(parser, first, program_state.config.commands@)
    &&& after.wf()
    &&& after == (BufferView { hints: after.hints, ..line })
    &&& hints_refreshed(
        is_dir,
        list_dir,
        program_state.current_working_directory@,
        program_state.executables.deep_view(),
        line.hints,
        classification(parser_after, line.tokens()),
        line.tokens(),
        after.hints,
    )
}

/// What accepting the closest match of the current argument adds to the
/// line.
pub fn tab_completion(buffer: &InputBuffer) -> (r: String)
    requires
        buffer@.wf(),
    ensures
        r@ == completion(buffer@),
{
    let curr_arg = buffer.get_curr_arg();
    let hints = buffer.get_argument_hints();
    if curr_arg < buffer.num_args() && curr_arg < hints.len() {
        let curr = buffer.arg_locs(curr_arg);
        let typed = curr.1 - curr.0;
        let hint = &hints[curr_arg].1;
        let disregard = hint.disregard();
        match hint.last_closest_match() {
            Some(m) => {
                let chars = crate::utils::to_chars(m.as_str());
                if disregard <= typed && typed - disregard <= chars.len() {
                    let r = from_chars(chars.as_slice(), typed - disregard, chars.len());
                    r
                } else {
                    String::new()
                }
            },
            None => String::new(),
        }
    } else {
        String::new()
    }
}

/// Does what a view asks of the line: to take a text for the closest
/// match of the current argument, or to hold another text, with its
/// arguments and hints brought up to date for it.
pub fn execute_action<D: Fn(&String) -> bool, L: Fn(&String) -> Vec<String>>(
    action: ActionToExecute,
    buffer: &mut InputBuffer,
    arg_parser: &ArgumentParser,
    program_state: &ProgramState,
    is_dir: &D,
    list_dir: &L,
)
    requires
        old(buffer)@.wf(),
        forall|p: &String| #[trigger] is_dir.requires((p,)),
        forall|p: &String| #[trigger] list_dir.requires((p,)),
    ensures
        final(buffer)@.wf(),
        match action {
            ActionToExecute::SetClosestMatch(s) => {
                let arg = old(buffer)@.curr_arg as int;
                final(buffer)@ == (if arg < old(buffer)@.hints.len() {
                    BufferView {
                        hints: old(buffer)@.hints.update(
                            arg,
                            (
                                old(buffer)@.hints[arg].0,
                                HintView { last_closest_match: Some(s@), ..old(buffer)@.hints[arg].1 },
                            ),
                        ),
                        ..old(buffer)@
                    }
                } else {
                    old(buffer)@
                })
            },
            ActionToExecute::SetBuffer(s) => {
                let line = old(buffer)@.clear_all().insert_str(s@).retokenize();
                &&& final(buffer)@ == (BufferView { hints: final(buffer)@.hints, ..line })
                &&& hints_refreshed(
                    is_dir,
                    list_dir,
                    program_state.current_working_directory@,
                    program_state.executables.deep_view(),
                    line.hints,
                    classification(arg_parser@, line.tokens()),
                    line.tokens(),
                    final(buffer)@.hints,
                )
            },
        },
{
    match action {
        ActionToExecute::SetClosestMatch(s) => {
            let curr_arg = buffer.get_curr_arg();
            buffer.set_closest_match_on_hint(curr_arg, s);
        },
        ActionToExecute::SetBuffer(s) => {
            buffer.clear_all();
            buffer.insert_str_main_cursor(s.as_str());
            buffer.update();
            buffer.update_arguments(arg_parser, program_state, is_dir, list_dir);
        },
    }
}

} // verus!
