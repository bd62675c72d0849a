use hinaview::commands::{command_effect, Command, CommandAction, CommandEffect, FitChoice};
use hinaview::types::LayoutMode;

const DUAL: LayoutMode = LayoutMode::Dual { rtl: false, first_page_offset: false };

#[test]
fn page_steps_stop_the_slideshow_and_scroll_in_vertical_mode() {
    assert_eq!(
        command_effect(LayoutMode::Single, true, Command::NavigateNext, false, true),
        CommandEffect { stop_slideshow: true, action: CommandAction::Step(1) }
    );
    assert_eq!(
        command_effect(LayoutMode::VerticalScroll, false, Command::NavigatePrevious, false, true),
        CommandEffect { stop_slideshow: false, action: CommandAction::ScrollByPages(-1) }
    );
    assert_eq!(
        command_effect(LayoutMode::VerticalScroll, false, Command::NavigateNext, true, true).action,
        CommandAction::Nothing
    );
    assert_eq!(
        command_effect(LayoutMode::VerticalScroll, true, Command::NavigateNext, false, false),
        CommandEffect { stop_slideshow: false, action: CommandAction::Step(1) }
    );
}

#[test]
fn jumps_archives_and_fits_follow_the_key_state() {
    assert_eq!(command_effect(DUAL, false, Command::NavigateLast, true, true).action, CommandAction::JumpLast);
    assert_eq!(
        command_effect(LayoutMode::VerticalScroll, false, Command::NavigateFirst, false, true).action,
        CommandAction::ScrollToFirst
    );
    assert_eq!(command_effect(DUAL, false, Command::NavigateFirst, false, false).action, CommandAction::Nothing);
    assert_eq!(
        command_effect(DUAL, true, Command::NavigateNextArchive, false, true),
        CommandEffect { stop_slideshow: true, action: CommandAction::NeighborArchive(1) }
    );
    assert_eq!(
        command_effect(DUAL, true, Command::NavigatePreviousArchive, true, true).action,
        CommandAction::Nothing
    );
    assert_eq!(
        command_effect(DUAL, true, Command::SetFitWidth, true, true),
        CommandEffect { stop_slideshow: false, action: CommandAction::Fit(FitChoice::Width) }
    );
    assert_eq!(command_effect(DUAL, false, Command::ZoomInStep, true, true).action, CommandAction::ZoomIn);
    assert_eq!(command_effect(DUAL, false, Command::CycleLayoutMode, true, true).action, CommandAction::Nothing);
    assert_eq!(command_effect(DUAL, false, Command::SaveManualBookmark, false, true).action, CommandAction::SaveBookmark);
}

#[test]
fn rotation_only_in_the_single_page_layout() {
    assert_eq!(
        command_effect(LayoutMode::Single, false, Command::RotateCw, false, true).action,
        CommandAction::Rotate { clockwise: true }
    );
    assert_eq!(command_effect(DUAL, false, Command::RotateCcw, false, true).action, CommandAction::RefuseRotation);
    assert_eq!(
        command_effect(LayoutMode::VerticalScroll, false, Command::RotateCw, false, true).action,
        CommandAction::RefuseRotation
    );
    assert_eq!(command_effect(LayoutMode::Single, false, Command::RotateCw, true, true).action, CommandAction::Nothing);
}
