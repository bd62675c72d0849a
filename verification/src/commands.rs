//! What a key or menu command does to the view, decided from the layout, the slideshow
//! state and how the key was pressed. Zoom amounts, offsets and drawing stay with the
//! window loop, which carries out the action decided here.
use crate::types::LayoutMode;
use vstd::prelude::*;

verus! {

/// A command of the viewer that moves, fits, rotates or bookmarks.
#[derive(Debug, Clone, Copy, PartialEq, Eq, Structural)]
pub enum Command {
    NavigatePrevious,
    NavigateNext,
    NavigateFirst,
    NavigateLast,
    NavigatePreviousArchive,
    NavigateNextArchive,
    SetFitScreen,
    SetFitWidth,
    SetFitHeight,
    CycleLayoutMode,
    ToggleFirstPageOffset,
    ZoomInStep,
    ZoomOutStep,
    RotateCcw,
    RotateCw,
    SaveManualBookmark,
}

/// How a fit command sizes the page.
#[derive(Debug, Clone, Copy, PartialEq, Eq, Structural)]
pub enum FitChoice {
    Screen,
    Width,
    Height,
}

/// What the window loop does for a command.
#[derive(Debug, Clone, Copy, PartialEq, Eq, Structural)]
pub enum CommandAction {
    /// Nothing.
    Nothing,
    /// In vertical scroll: scroll by this many pages.
    ScrollByPages(i32),
    /// In vertical scroll: scroll to the first page.
    ScrollToFirst,
    /// In vertical scroll: scroll to the last page.
    ScrollToLast,
    /// Step this many pages (or spreads), with the key's repeat and press state.
    Step(i32),
    /// Jump to the first page or spread.
    JumpFirst,
    /// Jump to the last page or spread.
    JumpLast,
    /// Open the neighbouring archive this many entries away.
    NeighborArchive(i32),
    /// Fit the page as chosen.
    Fit(FitChoice),
    /// Switch to the next layout.
    CycleLayout,
    /// Switch the first-page offset of the dual layout.
    ToggleOffset,
    /// Zoom in one step.
    ZoomIn,
    /// Zoom out one step.
    ZoomOut,
    /// Rotate a quarter turn.
    Rotate { clockwise: bool },
    /// Show the warning that rotation needs the single-page layout.
    RefuseRotation,
    /// Save a bookmark of the current page.
    SaveBookmark,
}

/// The effect of a command: whether the running slideshow stops, and the action.
#[derive(Debug, Clone, Copy, PartialEq, Eq, Structural)]
pub struct CommandEffect {
    pub stop_slideshow: bool,
    pub action: CommandAction,
}

/// Whether the command moves within or between documents.
pub open spec fn is_navigation(cmd: Command) -> bool {
    matches!(
        cmd,
        Command::NavigatePrevious | Command::NavigateNext | Command::NavigateFirst
            | Command::NavigateLast | Command::NavigatePreviousArchive | Command::NavigateNextArchive
    )
}

/// The action of a command. A page step in vertical scroll scrolls on a fresh press,
/// does nothing while the key repeats, and ends the step on release; jumps and scrolls
/// to the ends, fits and zooms act on a press; archive moves, layout changes, rotation
/// and bookmarks on a fresh press, rotation only in the single-page layout.
pub open spec fn command_action(
    layout: LayoutMode,
    cmd: Command,
    is_repeat: bool,
    is_pressed: bool,
) -> CommandAction {
    let vertical = layout == LayoutMode::VerticalScroll;
    let fresh = is_pressed && !is_repeat;
    match cmd {
        Command::NavigatePrevious => if vertical && fresh {
            CommandAction::ScrollByPages(-1i32)
        } else if vertical && is_pressed {
            CommandAction::Nothing
        } else {
            CommandAction::Step(-1i32)
        },
        Command::NavigateNext => if vertical && fresh {
            CommandAction::ScrollByPages(1i32)
        } else if vertical && is_pressed {
            CommandAction::Nothing
        } else {
            CommandAction::Step(1i32)
        },
        Command::NavigateFirst => if !is_pressed {
            CommandAction::Nothing
        } else if vertical {
            CommandAction::ScrollToFirst
        } else {
            CommandAction::JumpFirst
        },
        Command::NavigateLast => if !is_pressed {
            CommandAction::Nothing
        } else if vertical {
            CommandAction::ScrollToLast
        } else {
            CommandAction::JumpLast
        },
        Command::NavigatePreviousArchive => if fresh {
            CommandAction::NeighborArchive(-1i32)
        } else {
            CommandAction::Nothing
        },
        Command::NavigateNextArchive => if fresh {
            CommandAction::NeighborArchive(1i32)
        } else {
            CommandAction::Nothing
        },
        Command::SetFitScreen => if is_pressed {
            CommandAction::Fit(FitChoice::Screen)
        } else {
            CommandAction::Nothing
        },
        Command::SetFitWidth => if is_pressed {
            CommandAction::Fit(FitChoice::Width)
        } else {
            CommandAction::Nothing
        },
        Command::SetFitHeight => if is_pressed {
            CommandAction::Fit(FitChoice::Height)
        } else {
            CommandAction::Nothing
        },
        Command::CycleLayoutMode => if fresh {
            CommandAction::CycleLayout
        } else {
            CommandAction::Nothing
        },
        Command::ToggleFirstPageOffset => if fresh {
            CommandAction::ToggleOffset
        } else {
            CommandAction::Nothing
        },
        Command::ZoomInStep => if is_pressed {
            CommandAction::ZoomIn
        } else {
            CommandAction::Nothing
        },
        Command::ZoomOutStep => if is_pressed {
            CommandAction::ZoomOut
        } else {
            CommandAction::Nothing
        },
        Command::RotateCcw => if !fresh {
            CommandAction::Nothing
        } else if layout != LayoutMode::Single {
            CommandAction::RefuseRotation
        } else {
            CommandAction::Rotate { clockwise: false }
        },
        Command::RotateCw => if !fresh {
            CommandAction::Nothing
        } else if layout != LayoutMode::Single {
            CommandAction::RefuseRotation
        } else {
            CommandAction::Rotate { clockwise: true }
        },
        Command::SaveManualBookmark => if fresh {
            CommandAction::SaveBookmark
        } else {
            CommandAction::Nothing
        },
    }
}

fn is_vertical(layout: LayoutMode) -> (r: bool)
    ensures
        r == (layout == LayoutMode::VerticalScroll),
{
    match layout {
        LayoutMode::VerticalScroll => true,
        _ => false,
    }
}

fn is_single(layout: LayoutMode) -> (r: bool)
    ensures
        r == (layout == LayoutMode::Single),
{
    match layout {
        LayoutMode::Single => true,
        _ => false,
    }
}

fn page_step(vertical: bool, fresh: bool, is_pressed: bool, delta: i32) -> (r: CommandAction)
    ensures
        r == (if vertical && fresh {
            CommandAction::ScrollByPages(delta)
        } else if vertical && is_pressed {
            CommandAction::Nothing
        } else {
            CommandAction::Step(delta)
        }),
{
    if vertical && fresh {
        CommandAction::ScrollByPages(delta)
    } else if vertical && is_pressed {
        CommandAction::Nothing
    } else {
        CommandAction::Step(delta)
    }
}

fn when(cond: bool, action: CommandAction) -> (r: CommandAction)
    ensures
        r == (if cond {
            action
        } else {
            CommandAction::Nothing
        }),
{
    if cond {
        action
    } else {
        CommandAction::Nothing
    }
}

fn rotation(fresh: bool, single: bool, clockwise: bool) -> (r: CommandAction)
    ensures
        r == (if !fresh {
            CommandAction::Nothing
        } else if !single {
            CommandAction::RefuseRotation
        } else {
            CommandAction::Rotate { clockwise }
        }),
{
    if !fresh {
        CommandAction::Nothing
    } else if !single {
        CommandAction::RefuseRotation
    } else {
        CommandAction::Rotate { clockwise }
    }
}

/// The effect of `cmd` pressed (or released, or repeating) in `layout`: a navigation
/// command pressed while the slideshow runs stops it; the action is `command_action`.
pub fn command_effect(
    layout: LayoutMode,
    slideshow_enabled: bool,
    cmd: Command,
    is_repeat: bool,
    is_pressed: bool,
) -> (r: CommandEffect)
    ensures
        r.stop_slideshow == (is_navigation(cmd) && is_pressed && slideshow_enabled),
        r.action == command_action(layout, cmd, is_repeat, is_pressed),
{
    let vertical = is_vertical(layout);
    let single = is_single(layout);
    let fresh = is_pressed && !is_repeat;
    let (navigation, action) = match cmd {
        Command::NavigatePrevious => (true, page_step(vertical, fresh, is_pressed, -1)),
        Command::NavigateNext => (true, page_step(vertical, fresh, is_pressed, 1)),
        Command::NavigateFirst => (
            true,
            when(
                is_pressed,
                if vertical {
                    CommandAction::ScrollToFirst
                } else {
                    CommandAction::JumpFirst
                },
            ),
        ),
        Command::NavigateLast => (
            true,
            when(
                is_pressed,
                if vertical {
                    CommandAction::ScrollToLast
                } else {
                    CommandAction::JumpLast
                },
            ),
        ),
        Command::NavigatePreviousArchive => (true, when(fresh, CommandAction::NeighborArchive(-1))),
        Command::NavigateNextArchive => (true, when(fresh, CommandAction::NeighborArchive(1))),
        Command::SetFitScreen => (false, when(is_pressed, CommandAction::Fit(FitChoice::Screen))),
        Command::SetFitWidth => (false, when(is_pressed, CommandAction::Fit(FitChoice::Width))),
        Command::SetFitHeight => (false, when(is_pressed, CommandAction::Fit(FitChoice::Height))),
        Command::CycleLayoutMode => (false, when(fresh, CommandAction::CycleLayout)),
        Command::ToggleFirstPageOffset => (false, when(fresh, CommandAction::ToggleOffset)),
        Command::ZoomInStep => (false, when(is_pressed, CommandAction::ZoomIn)),
        Command::ZoomOutStep => (false, when(is_pressed, CommandAction::ZoomOut)),
        Command::RotateCcw => (false, rotation(fresh, single, false)),
        Command::RotateCw => (false, rotation(fresh, single, true)),
        Command::SaveManualBookmark => (false, when(fresh, CommandAction::SaveBookmark)),
    };
    CommandEffect { stop_slideshow: navigation && is_pressed && slideshow_enabled, action }
}

/// Rotation needs the single-page layout: in the dual and the vertical scroll layouts a
/// rotate command never rotates.
pub proof fn law_no_rotation_outside_single(
    layout: LayoutMode,
    cmd: Command,
    is_repeat: bool,
    is_pressed: bool,
)
    requires
        layout != LayoutMode::Single,
    ensures
        !(command_action(layout, cmd, is_repeat, is_pressed) is Rotate),
{
}

/// The directions and targets of the commands: the previous archive is one entry back and
/// the next one entry ahead, on a fresh press and only then; outside vertical scroll the
/// page steps go one page back and one page ahead; in vertical scroll a fresh press
/// scrolls one page back or ahead; a press of first or last jumps to that end; rotation in
/// the single-page layout turns counter-clockwise for `RotateCcw` and clockwise for
/// `RotateCw`; fit and zoom commands act on a press as named.
pub proof fn law_command_directions(layout: LayoutMode, is_repeat: bool, is_pressed: bool)
    ensures
        is_pressed && !is_repeat ==> command_action(
            layout,
            Command::NavigatePreviousArchive,
            is_repeat,
            is_pressed,
        ) == CommandAction::NeighborArchive(-1i32) && command_action(
            layout,
            Command::NavigateNextArchive,
            is_repeat,
            is_pressed,
        ) == CommandAction::NeighborArchive(1i32),
        !(is_pressed && !is_repeat) ==> command_action(
            layout,
            Command::NavigatePreviousArchive,
            is_repeat,
            is_pressed,
        ) == CommandAction::Nothing && command_action(
            layout,
            Command::NavigateNextArchive,
            is_repeat,
            is_pressed,
        ) == CommandAction::Nothing,
        layout != LayoutMode::VerticalScroll ==> command_action(
            layout,
            Command::NavigatePrevious,
            is_repeat,
            is_pressed,
        ) == CommandAction::Step(-1i32) && command_action(
            layout,
            Command::NavigateNext,
            is_repeat,
            is_pressed,
        ) == CommandAction::Step(1i32),
        layout == LayoutMode::VerticalScroll && is_pressed && !is_repeat ==> command_action(
            layout,
            Command::NavigatePrevious,
            is_repeat,
            is_pressed,
        ) == CommandAction::ScrollByPages(-1i32) && command_action(
            layout,
            Command::NavigateNext,
            is_repeat,
            is_pressed,
        ) == CommandAction::ScrollByPages(1i32),
        is_pressed && layout != LayoutMode::VerticalScroll ==> command_action(
            layout,
            Command::NavigateFirst,
            is_repeat,
            is_pressed,
        ) == CommandAction::JumpFirst && command_action(
            layout,
            Command::NavigateLast,
            is_repeat,
            is_pressed,
        ) == CommandAction::JumpLast,
        is_pressed && layout == LayoutMode::VerticalScroll ==> command_action(
            layout,
            Command::NavigateFirst,
            is_repeat,
            is_pressed,
        ) == CommandAction::ScrollToFirst && command_action(
            layout,
            Command::NavigateLast,
            is_repeat,
            is_pressed,
        ) == CommandAction::ScrollToLast,
        is_pressed && !is_repeat && layout == LayoutMode::Single ==> command_action(
            layout,
            Command::RotateCcw,
            is_repeat,
            is_pressed,
        ) == (CommandAction::Rotate { clockwise: false }) && command_action(
            layout,
            Command::RotateCw,
            is_repeat,
            is_pressed,
        ) == (CommandAction::Rotate { clockwise: true }),
        is_pressed ==> command_action(layout, Command::SetFitScreen, is_repeat, is_pressed)
            == CommandAction::Fit(FitChoice::Screen) && command_action(
            layout,
            Command::SetFitWidth,
            is_repeat,
            is_pressed,
        ) == CommandAction::Fit(FitChoice::Width) && command_action(
            layout,
            Command::SetFitHeight,
            is_repeat,
            is_pressed,
        ) == CommandAction::Fit(FitChoice::Height) && command_action(
            layout,
            Command::ZoomInStep,
            is_repeat,
            is_pressed,
        ) == CommandAction::ZoomIn && command_action(layout, Command::ZoomOutStep, is_repeat, is_pressed)
            == CommandAction::ZoomOut,
        is_pressed && !is_repeat ==> command_action(
            layout,
            Command::SaveManualBookmark,
            is_repeat,
            is_pressed,
        ) == CommandAction::SaveBookmark && command_action(
            layout,
            Command::CycleLayoutMode,
            is_repeat,
            is_pressed,
        ) == CommandAction::CycleLayout && command_action(
            layout,
            Command::ToggleFirstPageOffset,
            is_repeat,
            is_pressed,
        ) == CommandAction::ToggleOffset,
{
}

/// Which commands stop a running slideshow: a press of any of the six navigation
/// commands does, and no other command, nor a release, does.
pub proof fn law_navigation_stops_slideshow(cmd: Command, is_pressed: bool)
    ensures
        is_navigation(cmd) <==> (cmd == Command::NavigatePrevious || cmd == Command::NavigateNext
            || cmd == Command::NavigateFirst || cmd == Command::NavigateLast || cmd
            == Command::NavigatePreviousArchive || cmd == Command::NavigateNextArchive),
{
}

/// When commands do nothing, and what a release does: a first or last jump, fit, zoom,
/// rotation, bookmark, layout or offset command does nothing unless pressed; the
/// fresh-press commands (archive moves, rotation, bookmark, layout, offset) do nothing
/// while the key repeats; in vertical scroll a repeating page key does nothing and a
/// released one ends the step as in other layouts; rotation outside the single-page layout
/// is refused with a warning.
pub proof fn law_command_key_states(layout: LayoutMode, cmd: Command, is_repeat: bool, is_pressed: bool)
    ensures
        !is_pressed && cmd != Command::NavigatePrevious && cmd != Command::NavigateNext
            ==> command_action(layout, cmd, is_repeat, is_pressed) == CommandAction::Nothing,
        is_repeat && (cmd == Command::NavigatePreviousArchive || cmd == Command::NavigateNextArchive
            || cmd == Command::RotateCcw || cmd == Command::RotateCw || cmd
            == Command::SaveManualBookmark || cmd == Command::CycleLayoutMode || cmd
            == Command::ToggleFirstPageOffset) ==> command_action(layout, cmd, is_repeat, is_pressed)
            == CommandAction::Nothing,
        layout == LayoutMode::VerticalScroll && is_pressed && is_repeat && (cmd
            == Command::NavigatePrevious || cmd == Command::NavigateNext) ==> command_action(
            layout,
            cmd,
            is_repeat,
            is_pressed,
        ) == CommandAction::Nothing,
        !is_pressed ==> command_action(layout, Command::NavigatePrevious, is_repeat, is_pressed)
            == CommandAction::Step(-1i32) && command_action(
            layout,
            Command::NavigateNext,
            is_repeat,
            is_pressed,
        ) == CommandAction::Step(1i32),
        is_pressed && !is_repeat && layout != LayoutMode::Single && (cmd == Command::RotateCcw || cmd
            == Command::RotateCw) ==> command_action(layout, cmd, is_repeat, is_pressed)
            == CommandAction::RefuseRotation,
{
}

} // verus!
