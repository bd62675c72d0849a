//! Localized texts of the user interface.
use crate::text::{decimal, decimal_string, replace_all, replace_placeholder, str_equals};
use crate::types::LayoutMode;
use vstd::prelude::*;

verus! {

broadcast use vstd::string::group_string_axioms;

/// Name and code of a language.
#[derive(Debug, Clone)]
pub struct LangMeta {
    pub name: String,
    pub code: String,
}

/// Labels of the information panel.
#[derive(Debug, Clone)]
pub struct LangInfo {
    pub title: String,
    pub filename: String,
    pub filesize: String,
    pub info: String,
    pub icc_profile: String,
    pub ram_cache_format: String,
}

/// Labels of the EXIF panel.
#[derive(Debug, Clone)]
pub struct LangExif {
    pub title: String,
    pub camera: String,
    pub lens: String,
    pub f_stop: String,
    pub shutter_speed: String,
    pub iso: String,
    pub datetime: String,
}

/// Labels of the view mode panel.
#[derive(Debug, Clone)]
pub struct LangViewMode {
    pub title: String,
    pub fit_window: String,
    pub fit_width: String,
    pub fit_height: String,
    pub zoom: String,
    pub single: String,
    pub ltr: String,
    pub rtl: String,
    pub one_page_offset: String,
    pub view_reset: String,
    pub slideshow: String,
    pub sec: String,
    pub slideshow_start: String,
    pub slideshow_stop: String,
    pub slideshow_repeat_format: String,
}

/// Labels of the filter panel.
#[derive(Debug, Clone)]
pub struct LangFilter {
    pub title: String,
    pub color: String,
    pub bright: String,
    pub contrast: String,
    pub gamma: String,
    pub exposure: String,
    pub fsr_enabled: String,
    pub fsr_sharpness: String,
    pub median: String,
    pub median_strength: String,
    pub median_stride: String,
    pub detail: String,
    pub blur: String,
    pub unsharp: String,
    pub unsharp_threshold: String,
    pub levels: String,
    pub levels_in: String,
    pub levels_out: String,
    pub levels_black: String,
    pub levels_mid: String,
    pub levels_white: String,
    pub bypass: String,
    pub reset: String,
}

/// Labels of the preferences panel.
#[derive(Debug, Clone)]
pub struct LangPreference {
    pub title: String,
    pub ui_auto_hide: String,
    pub no_auto_hide: String,
    pub prefetch_count: String,
    pub prefetch_format: String,
    pub webtoon_scroll_speed: String,
    pub ram_cache_setting: String,
    pub vram_cache_setting: String,
    pub archive_sorting: String,
    pub sort_mixed: String,
    pub sort_folders_first: String,
    pub remember_document_position: String,
    pub language: String,
    pub theme: String,
    pub theme_auto: String,
    pub theme_dark: String,
    pub theme_light: String,
    pub file_association: String,
    pub file_association_button: String,
    pub file_association_delete_button: String,
    pub context_menu_add_button: String,
    pub context_menu_delete_button: String,
    pub context_menu_item_text: String,
    pub context_menu_section_label: String,
    pub start_menu_add_button: String,
    pub start_menu_delete_button: String,
    pub start_menu_section_label: String,
    pub file_association_description: String,
    pub instance_mode: String,
    pub instance_restart_notice: String,
    pub instance_single: String,
    pub instance_multi: String,
    pub config_storage_location: String,
    pub config_storage_restart_notice: String,
    pub storage_app_dir: String,
    pub storage_system_config: String,
}

/// Labels of the bookmark list.
#[derive(Debug, Clone)]
pub struct LangBookmark {
    pub archive: String,
    pub file: String,
    pub auto: String,
    pub manual: String,
}

/// Labels of the file association window.
#[derive(Debug, Clone)]
pub struct LangFileAssociation {
    pub window_title: String,
    pub window_subtitle: String,
    pub select_all: String,
    pub deselect_all: String,
    pub apply: String,
    pub cancel: String,
}

/// Shortcut descriptions.
#[derive(Debug, Clone)]
pub struct LangShortcuts {
    pub fullscreen: String,
    pub fit_mode: String,
    pub zoom: String,
    pub layout: String,
    pub offset: String,
    pub archive_move: String,
    pub save_bookmark: String,
}

/// Names of the commands.
#[derive(Debug, Clone)]
pub struct LangCommand {
    pub navigate_previous: String,
    pub navigate_next: String,
    pub navigate_first: String,
    pub navigate_last: String,
    pub navigate_previous_archive: String,
    pub navigate_next_archive: String,
    pub set_fit_screen: String,
    pub set_fit_width: String,
    pub set_fit_height: String,
    pub cycle_layout_mode: String,
    pub toggle_first_page_offset: String,
    pub zoom_in_step: String,
    pub zoom_out_step: String,
    pub rotate_ccw: String,
    pub rotate_cw: String,
    pub save_manual_bookmark: String,
    pub reset_view: String,
    pub toggle_fullscreen: String,
    pub toggle_ui_windows: String,
    pub adjust_offset_up: String,
    pub adjust_offset_down: String,
    pub adjust_offset_left: String,
    pub adjust_offset_right: String,
    pub open_file: String,
}

/// Texts of the user interface.
#[derive(Debug, Clone)]
pub struct LangUi {
    pub settings: String,
    pub favorites: String,
    pub label_shortcuts: String,
    pub fit_screen: String,
    pub fit_width: String,
    pub fit_height: String,
    pub first_page_offset_on: String,
    pub first_page_offset_off: String,
    pub bookmark_limit_title: String,
    pub bookmark_limit_message: String,
    pub about_title: String,
    pub about_description: String,
    pub layout_single: String,
    pub layout_dual_ltr: String,
    pub layout_dual_rtl: String,
    pub layout_vertical_scroll: String,
    pub info: LangInfo,
    pub exif: LangExif,
    pub view_mode: LangViewMode,
    pub filter: LangFilter,
    pub preference: LangPreference,
    pub bookmark: LangBookmark,
    pub file_association: LangFileAssociation,
    pub shortcuts_list: LangShortcuts,
}

/// Texts of the short notices.
#[derive(Debug, Clone)]
pub struct LangToast {
    pub fullscreen_entered: String,
    pub fullscreen_exited: String,
    pub zoom_format: String,
    pub moved_to_format: String,
    pub bookmark_saved: String,
    pub ui_windows_shown: String,
    pub ui_windows_hidden: String,
    pub load_failed: String,
    pub nav_looped_first: String,
    pub nav_looped_last: String,
    pub nav_skipped_empty: String,
    pub nav_no_valid_targets: String,
    pub rotation_not_supported_in_dual: String,
    pub webtoon_not_supported_for_animated: String,
    pub slideshow_started: String,
    pub slideshow_stopped: String,
    pub file_association_deleted: String,
    pub context_menu_registered: String,
    pub context_menu_unregistered: String,
    pub file_association_failed: String,
    pub context_menu_register_failed: String,
    pub context_menu_unregister_failed: String,
    pub directory_context_menu_register_failed: String,
    pub directory_context_menu_unregister_failed: String,
    pub start_menu_registered: String,
    pub start_menu_unregistered: String,
    pub start_menu_register_failed: String,
    pub start_menu_unregister_failed: String,
    pub file_association_applied: String,
    pub file_association_apply_failed: String,
}

/// All texts of one language.
#[derive(Debug, Clone)]
pub struct LangData {
    pub meta: LangMeta,
    pub ui: LangUi,
    pub toast: LangToast,
    pub command: LangCommand,
}

/// Whether `d` holds the built-in English texts.
pub open spec fn is_default_data(d: LangData) -> bool {
    &&& d.meta.name@ == "English"@
    &&& d.meta.code@ == "en"@
    &&& d.ui.settings@ == "Settings"@
    &&& d.ui.favorites@ == "Favorites"@
    &&& d.ui.label_shortcuts@ == "Shortcuts"@
    &&& d.ui.fit_screen@ == "Fit Screen"@
    &&& d.ui.fit_width@ == "Fit Width"@
    &&& d.ui.fit_height@ == "Fit Height"@
    &&& d.ui.first_page_offset_on@ == "First Page Offset: On"@
    &&& d.ui.first_page_offset_off@ == "First Page Offset: Off"@
    &&& d.ui.bookmark_limit_title@ == "Bookmark Limit Reached"@
    &&& d.ui.bookmark_limit_message@ == "Manual bookmarks are limited to 15 entries."@
    &&& d.ui.about_title@ == "About"@
    &&& d.ui.about_description@ == "GPU-accelerated image viewer"@
    &&& d.ui.layout_single@ == "Single View"@
    &&& d.ui.layout_dual_ltr@ == "Dual View (LTR)"@
    &&& d.ui.layout_dual_rtl@ == "Dual View (RTL)"@
    &&& d.ui.layout_vertical_scroll@ == "Webtoon Mode"@
    &&& d.ui.info.title@ == "Info"@
    &&& d.ui.info.filename@ == "Filename"@
    &&& d.ui.info.filesize@ == "File Size"@
    &&& d.ui.info.info@ == "Dimensions"@
    &&& d.ui.info.icc_profile@ == "ICC Profile"@
    &&& d.ui.info.ram_cache_format@ == "RAM Cache {0}MB / {1}MB"@
    &&& d.ui.exif.title@ == "EXIF"@
    &&& d.ui.exif.camera@ == "Camera"@
    &&& d.ui.exif.lens@ == "Lens"@
    &&& d.ui.exif.f_stop@ == "F-Stop"@
    &&& d.ui.exif.shutter_speed@ == "Shutter Speed"@
    &&& d.ui.exif.iso@ == "ISO"@
    &&& d.ui.exif.datetime@ == "Date & Time"@
    &&& d.ui.view_mode.title@ == "View Mode"@
    &&& d.ui.view_mode.fit_window@ == "Fit Window"@
    &&& d.ui.view_mode.fit_width@ == "Fit Width"@
    &&& d.ui.view_mode.fit_height@ == "Fit Height"@
    &&& d.ui.view_mode.zoom@ == "Zoom"@
    &&& d.ui.view_mode.single@ == "Single"@
    &&& d.ui.view_mode.ltr@ == "LTR"@
    &&& d.ui.view_mode.rtl@ == "RTL"@
    &&& d.ui.view_mode.one_page_offset@ == "1-Page Offset"@
    &&& d.ui.view_mode.view_reset@ == "Reset View"@
    &&& d.ui.view_mode.slideshow@ == "Slideshow"@
    &&& d.ui.view_mode.sec@ == "sec"@
    &&& d.ui.view_mode.slideshow_start@ == "Start"@
    &&& d.ui.view_mode.slideshow_stop@ == "Stop"@
    &&& d.ui.view_mode.slideshow_repeat_format@ == "Repeat animation {0} times"@
    &&& d.ui.filter.title@ == "Filter"@
    &&& d.ui.filter.color@ == "Color"@
    &&& d.ui.filter.bright@ == "Brightness"@
    &&& d.ui.filter.contrast@ == "Contrast"@
    &&& d.ui.filter.gamma@ == "Gamma"@
    &&& d.ui.filter.exposure@ == "Exposure"@
    &&& d.ui.filter.fsr_enabled@ == "AMD FidelityFX™ FSR 1.0"@
    &&& d.ui.filter.fsr_sharpness@ == "FSR Sharpness"@
    &&& d.ui.filter.median@ == "Median Filter"@
    &&& d.ui.filter.median_strength@ == "Strength"@
    &&& d.ui.filter.median_stride@ == "Stride"@
    &&& d.ui.filter.detail@ == "Detail"@
    &&& d.ui.filter.blur@ == "Gaussian Blur"@
    &&& d.ui.filter.unsharp@ == "Unsharp Mask"@
    &&& d.ui.filter.unsharp_threshold@ == "Threshold"@
    &&& d.ui.filter.levels@ == "Levels"@
    &&& d.ui.filter.levels_in@ == "Input Levels"@
    &&& d.ui.filter.levels_out@ == "Output Levels"@
    &&& d.ui.filter.levels_black@ == "Blacks"@
    &&& d.ui.filter.levels_mid@ == "Midtones"@
    &&& d.ui.filter.levels_white@ == "Whites"@
    &&& d.ui.filter.bypass@ == "Bypass"@
    &&& d.ui.filter.reset@ == "Reset"@
    &&& d.ui.preference.title@ == "Preference"@
    &&& d.ui.preference.ui_auto_hide@ == "UI Auto-Hide"@
    &&& d.ui.preference.no_auto_hide@ == "No Auto-Hide"@
    &&& d.ui.preference.prefetch_count@ == "Prefetch Count"@
    &&& d.ui.preference.prefetch_format@ == "{0} pages"@
    &&& d.ui.preference.webtoon_scroll_speed@ == "Webtoon Scroll Speed"@
    &&& d.ui.preference.ram_cache_setting@ == "RAM Cache Setting ({0}MB / {1}MB)"@
    &&& d.ui.preference.vram_cache_setting@ == "VRAM Cache Setting ({0}MB / {1}MB)"@
    &&& d.ui.preference.archive_sorting@ == "Archive Sorting"@
    &&& d.ui.preference.sort_mixed@ == "Mixed Natural Sort"@
    &&& d.ui.preference.sort_folders_first@ == "Folders First"@
    &&& d.ui.preference.remember_document_position@ == "Remember position per archive"@
    &&& d.ui.preference.language@ == "Language"@
    &&& d.ui.preference.theme@ == "Theme"@
    &&& d.ui.preference.theme_auto@ == "Auto"@
    &&& d.ui.preference.theme_dark@ == "Dark"@
    &&& d.ui.preference.theme_light@ == "Light"@
    &&& d.ui.preference.file_association@ == "File Association"@
    &&& d.ui.preference.file_association_button@ == "File Association Settings..."@
    &&& d.ui.preference.file_association_delete_button@ == "Delete All"@
    &&& d.ui.preference.context_menu_add_button@ == "Add"@
    &&& d.ui.preference.context_menu_delete_button@ == "Delete"@
    &&& d.ui.preference.context_menu_item_text@ == "Open with HinaView"@
    &&& d.ui.preference.context_menu_section_label@ == "Register in Explorer right-click menu"@
    &&& d.ui.preference.start_menu_add_button@ == "Add"@
    &&& d.ui.preference.start_menu_delete_button@ == "Delete"@
    &&& d.ui.preference.start_menu_section_label@ == "Register in Windows Start Menu"@
    &&& d.ui.preference.file_association_description@ == "Set HinaView as default image viewer"@
    &&& d.ui.preference.instance_mode@ == "Window Mode"@
    &&& d.ui.preference.instance_restart_notice@ == "(Applied after restart)"@
    &&& d.ui.preference.instance_single@ == "Single Window Mode (Recommended)"@
    &&& d.ui.preference.instance_multi@ == "Multi Window Mode (Open in New Window)"@
    &&& d.ui.preference.config_storage_location@ == "Config Storage Location"@
    &&& d.ui.preference.config_storage_restart_notice@ == "(Applied after restart)"@
    &&& d.ui.preference.storage_app_dir@ == "Application Directory (Recommended)"@
    &&& d.ui.preference.storage_system_config@ == "System Config Directory"@
    &&& d.ui.bookmark.archive@ == "Archive"@
    &&& d.ui.bookmark.file@ == "File"@
    &&& d.ui.bookmark.auto@ == "Auto"@
    &&& d.ui.bookmark.manual@ == "Manual"@
    &&& d.ui.file_association.window_title@ == "File Association Settings"@
    &&& d.ui.file_association.window_subtitle@ == "Select file types to set HinaView as default viewer."@
    &&& d.ui.file_association.select_all@ == "Select All"@
    &&& d.ui.file_association.deselect_all@ == "Deselect All"@
    &&& d.ui.file_association.apply@ == "Apply"@
    &&& d.ui.file_association.cancel@ == "Cancel"@
    &&& d.ui.shortcuts_list.fullscreen@ == "f : Fullscreen"@
    &&& d.ui.shortcuts_list.fit_mode@ == "' / w / h : Fit Mode"@
    &&& d.ui.shortcuts_list.zoom@ == "+ / - : Zoom Step"@
    &&& d.ui.shortcuts_list.layout@ == "d : Single -> LTR -> RTL"@
    &&& d.ui.shortcuts_list.offset@ == "o : First Page Offset"@
    &&& d.ui.shortcuts_list.archive_move@ == "[ / ] : Archive Move"@
    &&& d.ui.shortcuts_list.save_bookmark@ == "b : Save Bookmark"@
    &&& d.toast.fullscreen_entered@ == "Entered Fullscreen Mode"@
    &&& d.toast.fullscreen_exited@ == "Exited Fullscreen Mode"@
    &&& d.toast.zoom_format@ == "Zoom {0}%"@
    &&& d.toast.moved_to_format@ == "Moved: {0}"@
    &&& d.toast.bookmark_saved@ == "Bookmark saved"@
    &&& d.toast.ui_windows_shown@ == "UI Shown"@
    &&& d.toast.ui_windows_hidden@ == "UI Hidden"@
    &&& d.toast.load_failed@ == "Failed to load image(s)"@
    &&& d.toast.nav_looped_first@ == "Returned to the first item"@
    &&& d.toast.nav_looped_last@ == "Moved to the last item"@
    &&& d.toast.nav_skipped_empty@ == "Skipped empty folder \"{0}\""@
    &&& d.toast.nav_no_valid_targets@ == "No valid directories found to move to"@
    &&& d.toast.rotation_not_supported_in_dual@ == "Rotation is not supported in dual-page view"@
    &&& d.toast.webtoon_not_supported_for_animated@ == "Webtoon mode is not supported for animated images"@
    &&& d.toast.slideshow_started@ == "Slideshow Started"@
    &&& d.toast.slideshow_stopped@ == "Slideshow Stopped"@
    &&& d.toast.file_association_deleted@ == "All file associations deleted."@
    &&& d.toast.context_menu_registered@ == "Context menu registered."@
    &&& d.toast.context_menu_unregistered@ == "Context menu unregistered."@
    &&& d.toast.file_association_failed@ == "Failed to delete file associations: {0}"@
    &&& d.toast.context_menu_register_failed@ == "Failed to register context menu: {0}"@
    &&& d.toast.context_menu_unregister_failed@ == "Failed to unregister context menu: {0}"@
    &&& d.toast.directory_context_menu_register_failed@ == "Failed to register directory context menu: {0}"@
    &&& d.toast.directory_context_menu_unregister_failed@ == "Failed to unregister directory context menu: {0}"@
    &&& d.toast.start_menu_registered@ == "Start menu shortcut registered."@
    &&& d.toast.start_menu_unregistered@ == "Start menu shortcut deleted."@
    &&& d.toast.start_menu_register_failed@ == "Failed to register start menu shortcut: {0}"@
    &&& d.toast.start_menu_unregister_failed@ == "Failed to delete start menu shortcut: {0}"@
    &&& d.toast.file_association_applied@ == "File associations applied."@
    &&& d.toast.file_association_apply_failed@ == "Failed to apply file associations: {0}"@
    &&& d.command.navigate_previous@ == "Previous"@
    &&& d.command.navigate_next@ == "Next"@
    &&& d.command.navigate_first@ == "First Page"@
    &&& d.command.navigate_last@ == "Last Page"@
    &&& d.command.navigate_previous_archive@ == "Previous Archive"@
    &&& d.command.navigate_next_archive@ == "Next Archive"@
    &&& d.command.set_fit_screen@ == "Fit Screen"@
    &&& d.command.set_fit_width@ == "Fit Width"@
    &&& d.command.set_fit_height@ == "Fit Height"@
    &&& d.command.cycle_layout_mode@ == "Cycle Layout"@
    &&& d.command.toggle_first_page_offset@ == "Toggle 1-Page Offset"@
    &&& d.command.zoom_in_step@ == "Zoom In"@
    &&& d.command.zoom_out_step@ == "Zoom Out"@
    &&& d.command.rotate_ccw@ == "Rotate CCW"@
    &&& d.command.rotate_cw@ == "Rotate CW"@
    &&& d.command.save_manual_bookmark@ == "Save Bookmark"@
    &&& d.command.reset_view@ == "Reset View"@
    &&& d.command.toggle_fullscreen@ == "Toggle Fullscreen"@
    &&& d.command.toggle_ui_windows@ == "Toggle UI"@
    &&& d.command.adjust_offset_up@ == "Pan Up"@
    &&& d.command.adjust_offset_down@ == "Pan Down"@
    &&& d.command.adjust_offset_left@ == "Pan Left"@
    &&& d.command.adjust_offset_right@ == "Pan Right"@
    &&& d.command.open_file@ == "Open File"@
}

fn text(s: &str) -> (r: String)
    ensures
        r@ == s@,
{
    s.to_string()
}

/// The built-in English texts, used when no language file can be read.
fn default_data() -> (d: LangData)
    ensures
        is_default_data(d),
{
    LangData {
        meta: LangMeta {
            name: text("English"),
            code: text("en"),
        },
        ui: LangUi {
            settings: text("Settings"),
            favorites: text("Favorites"),
            label_shortcuts: text("Shortcuts"),
            fit_screen: text("Fit Screen"),
            fit_width: text("Fit Width"),
            fit_height: text("Fit Height"),
            first_page_offset_on: text("First Page Offset: On"),
            first_page_offset_off: text("First Page Offset: Off"),
            bookmark_limit_title: text("Bookmark Limit Reached"),
            bookmark_limit_message: text("Manual bookmarks are limited to 15 entries."),
            about_title: text("About"),
            about_description: text("GPU-accelerated image viewer"),
            layout_single: text("Single View"),
            layout_dual_ltr: text("Dual View (LTR)"),
            layout_dual_rtl: text("Dual View (RTL)"),
            layout_vertical_scroll: text("Webtoon Mode"),
            info: LangInfo {
                title: text("Info"),
                filename: text("Filename"),
                filesize: text("File Size"),
                info: text("Dimensions"),
                icc_profile: text("ICC Profile"),
                ram_cache_format: text("RAM Cache {0}MB / {1}MB"),
            },
            exif: LangExif {
                title: text("EXIF"),
                camera: text("Camera"),
                lens: text("Lens"),
                f_stop: text("F-Stop"),
                shutter_speed: text("Shutter Speed"),
                iso: text("ISO"),
                datetime: text("Date & Time"),
            },
            view_mode: LangViewMode {
                title: text("View Mode"),
                fit_window: text("Fit Window"),
                fit_width: text("Fit Width"),
                fit_height: text("Fit Height"),
                zoom: text("Zoom"),
                single: text("Single"),
                ltr: text("LTR"),
                rtl: text("RTL"),
                one_page_offset: text("1-Page Offset"),
                view_reset: text("Reset View"),
                slideshow: text("Slideshow"),
                sec: text("sec"),
                slideshow_start: text("Start"),
                slideshow_stop: text("Stop"),
                slideshow_repeat_format: text("Repeat animation {0} times"),
            },
            filter: LangFilter {
                title: text("Filter"),
                color: text("Color"),
                bright: text("Brightness"),
                contrast: text("Contrast"),
                gamma: text("Gamma"),
                exposure: text("Exposure"),
                fsr_enabled: text("AMD FidelityFX™ FSR 1.0"),
                fsr_sharpness: text("FSR Sharpness"),
                median: text("Median Filter"),
                median_strength: text("Strength"),
                median_stride: text("Stride"),
                detail: text("Detail"),
                blur: text("Gaussian Blur"),
                unsharp: text("Unsharp Mask"),
                unsharp_threshold: text("Threshold"),
                levels: text("Levels"),
                levels_in: text("Input Levels"),
                levels_out: text("Output Levels"),
                levels_black: text("Blacks"),
                levels_mid: text("Midtones"),
                levels_white: text("Whites"),
                bypass: text("Bypass"),
                reset: text("Reset"),
            },
            preference: LangPreference {
                title: text("Preference"),
                ui_auto_hide: text("UI Auto-Hide"),
                no_auto_hide: text("No Auto-Hide"),
                prefetch_count: text("Prefetch Count"),
                prefetch_format: text("{0} pages"),
                webtoon_scroll_speed: text("Webtoon Scroll Speed"),
                ram_cache_setting: text("RAM Cache Setting ({0}MB / {1}MB)"),
                vram_cache_setting: text("VRAM Cache Setting ({0}MB / {1}MB)"),
                archive_sorting: text("Archive Sorting"),
                sort_mixed: text("Mixed Natural Sort"),
                sort_folders_first: text("Folders First"),
                remember_document_position: text("Remember position per archive"),
                language: text("Language"),
                theme: text("Theme"),
                theme_auto: text("Auto"),
                theme_dark: text("Dark"),
                theme_light: text("Light"),
                file_association: text("File Association"),
                file_association_button: text("File Association Settings..."),
                file_association_delete_button: text("Delete All"),
                context_menu_add_button: text("Add"),
                context_menu_delete_button: text("Delete"),
                context_menu_item_text: text("Open with HinaView"),
                context_menu_section_label: text("Register in Explorer right-click menu"),
                start_menu_add_button: text("Add"),
                start_menu_delete_button: text("Delete"),
                start_menu_section_label: text("Register in Windows Start Menu"),
                file_association_description: text("Set HinaView as default image viewer"),
                instance_mode: text("Window Mode"),
                instance_restart_notice: text("(Applied after restart)"),
                instance_single: text("Single Window Mode (Recommended)"),
                instance_multi: text("Multi Window Mode (Open in New Window)"),
                config_storage_location: text("Config Storage Location"),
                config_storage_restart_notice: text("(Applied after restart)"),
                storage_app_dir: text("Application Directory (Recommended)"),
                storage_system_config: text("System Config Directory"),
            },
            bookmark: LangBookmark {
                archive: text("Archive"),
                file: text("File"),
                auto: text("Auto"),
                manual: text("Manual"),
            },
            file_association: LangFileAssociation {
                window_title: text("File Association Settings"),
                window_subtitle: text("Select file types to set HinaView as default viewer."),
                select_all: text("Select All"),
                deselect_all: text("Deselect All"),
                apply: text("Apply"),
                cancel: text("Cancel"),
            },
            shortcuts_list: LangShortcuts {
                fullscreen: text("f : Fullscreen"),
                fit_mode: text("' / w / h : Fit Mode"),
                zoom: text("+ / - : Zoom Step"),
                layout: text("d : Single -> LTR -> RTL"),
                offset: text("o : First Page Offset"),
                archive_move: text("[ / ] : Archive Move"),
                save_bookmark: text("b : Save Bookmark"),
            },
        },
        toast: LangToast {
            fullscreen_entered: text("Entered Fullscreen Mode"),
            fullscreen_exited: text("Exited Fullscreen Mode"),
            zoom_format: text("Zoom {0}%"),
            moved_to_format: text("Moved: {0}"),
            bookmark_saved: text("Bookmark saved"),
            ui_windows_shown: text("UI Shown"),
            ui_windows_hidden: text("UI Hidden"),
            load_failed: text("Failed to load image(s)"),
            nav_looped_first: text("Returned to the first item"),
            nav_looped_last: text("Moved to the last item"),
            nav_skipped_empty: text("Skipped empty folder \"{0}\""),
            nav_no_valid_targets: text("No valid directories found to move to"),
            rotation_not_supported_in_dual: text("Rotation is not supported in dual-page view"),
            webtoon_not_supported_for_animated: text("Webtoon mode is not supported for animated images"),
            slideshow_started: text("Slideshow Started"),
            slideshow_stopped: text("Slideshow Stopped"),
            file_association_deleted: text("All file associations deleted."),
            context_menu_registered: text("Context menu registered."),
            context_menu_unregistered: text("Context menu unregistered."),
            file_association_failed: text("Failed to delete file associations: {0}"),
            context_menu_register_failed: text("Failed to register context menu: {0}"),
            context_menu_unregister_failed: text("Failed to unregister context menu: {0}"),
            directory_context_menu_register_failed: text("Failed to register directory context menu: {0}"),
            directory_context_menu_unregister_failed: text("Failed to unregister directory context menu: {0}"),
            start_menu_registered: text("Start menu shortcut registered."),
            start_menu_unregistered: text("Start menu shortcut deleted."),
            start_menu_register_failed: text("Failed to register start menu shortcut: {0}"),
            start_menu_unregister_failed: text("Failed to delete start menu shortcut: {0}"),
            file_association_applied: text("File associations applied."),
            file_association_apply_failed: text("Failed to apply file associations: {0}"),
        },
        command: LangCommand {
            navigate_previous: text("Previous"),
            navigate_next: text("Next"),
            navigate_first: text("First Page"),
            navigate_last: text("Last Page"),
            navigate_previous_archive: text("Previous Archive"),
            navigate_next_archive: text("Next Archive"),
            set_fit_screen: text("Fit Screen"),
            set_fit_width: text("Fit Width"),
            set_fit_height: text("Fit Height"),
            cycle_layout_mode: text("Cycle Layout"),
            toggle_first_page_offset: text("Toggle 1-Page Offset"),
            zoom_in_step: text("Zoom In"),
            zoom_out_step: text("Zoom Out"),
            rotate_ccw: text("Rotate CCW"),
            rotate_cw: text("Rotate CW"),
            save_manual_bookmark: text("Save Bookmark"),
            reset_view: text("Reset View"),
            toggle_fullscreen: text("Toggle Fullscreen"),
            toggle_ui_windows: text("Toggle UI"),
            adjust_offset_up: text("Pan Up"),
            adjust_offset_down: text("Pan Down"),
            adjust_offset_left: text("Pan Left"),
            adjust_offset_right: text("Pan Right"),
            open_file: text("Open File"),
        },
    }
}

/// What reading a language file gave.
pub enum LangFile {
    /// The file does not exist or cannot be read.
    Missing,
    /// The file was read but does not hold valid language data.
    Unparsable,
    /// The file's language data.
    Parsed(LangData),
}

/// The texts a localizer uses, given the requested language's file and the English file.
pub open spec fn chosen_data(requested: LangFile, english: LangFile, d: LangData) -> bool {
    match requested {
        LangFile::Parsed(r) => d == r,
        LangFile::Unparsable => is_default_data(d),
        LangFile::Missing => match english {
            LangFile::Parsed(e) => d == e,
            _ => is_default_data(d),
        },
    }
}

/// Texts of the current language and the list of languages that can be chosen.
#[derive(Debug, Clone)]
pub struct Localizer {
    data: LangData,
    available_languages: Vec<LangMeta>,
}

/// The name of the command with key `key`, or the empty text for an unknown key.
pub open spec fn command_label(c: LangCommand, key: Seq<char>) -> Seq<char> {
    if key == "navigate_previous"@ {
        c.navigate_previous@
    } else if key == "navigate_next"@ {
        c.navigate_next@
    } else if key == "navigate_first"@ {
        c.navigate_first@
    } else if key == "navigate_last"@ {
        c.navigate_last@
    } else if key == "navigate_previous_archive"@ {
        c.navigate_previous_archive@
    } else if key == "navigate_next_archive"@ {
        c.navigate_next_archive@
    } else if key == "set_fit_screen"@ {
        c.set_fit_screen@
    } else if key == "set_fit_width"@ {
        c.set_fit_width@
    } else if key == "set_fit_height"@ {
        c.set_fit_height@
    } else if key == "cycle_layout_mode"@ {
        c.cycle_layout_mode@
    } else if key == "toggle_first_page_offset"@ {
        c.toggle_first_page_offset@
    } else if key == "zoom_in_step"@ {
        c.zoom_in_step@
    } else if key == "zoom_out_step"@ {
        c.zoom_out_step@
    } else if key == "rotate_ccw"@ {
        c.rotate_ccw@
    } else if key == "rotate_cw"@ {
        c.rotate_cw@
    } else if key == "save_manual_bookmark"@ {
        c.save_manual_bookmark@
    } else if key == "reset_view"@ {
        c.reset_view@
    } else if key == "toggle_fullscreen"@ {
        c.toggle_fullscreen@
    } else if key == "toggle_ui_windows"@ {
        c.toggle_ui_windows@
    } else if key == "adjust_offset_up"@ {
        c.adjust_offset_up@
    } else if key == "adjust_offset_down"@ {
        c.adjust_offset_down@
    } else if key == "adjust_offset_left"@ {
        c.adjust_offset_left@
    } else if key == "adjust_offset_right"@ {
        c.adjust_offset_right@
    } else if key == "open_file"@ {
        c.open_file@
    } else {
        Seq::empty()
    }
}

impl Localizer {
    /// The texts in use.
    pub closed spec fn lang_data(&self) -> LangData {
        self.data
    }

    /// The languages offered for selection.
    pub closed spec fn languages(&self) -> Seq<LangMeta> {
        self.available_languages@
    }

    /// A localizer for the requested language: its file's texts when they parse; the
    /// built-in English texts when the file exists but does not parse; when it is
    /// missing, the English file's texts, or the built-in ones.
    pub fn new(requested: LangFile, english: LangFile, available_languages: Vec<LangMeta>) -> (r: Self)
        ensures
            chosen_data(requested, english, r.lang_data()),
            r.languages() == available_languages@,
    {
        let data = match requested {
            LangFile::Parsed(d) => d,
            LangFile::Unparsable => default_data(),
            LangFile::Missing => match english {
                LangFile::Parsed(e) => e,
                _ => default_data(),
            },
        };
        Localizer { data, available_languages }
    }

    /// The languages that can be chosen.
    pub fn available_languages(&self) -> (r: &[LangMeta])
        ensures
            r@ == self.languages(),
    {
        self.available_languages.as_slice()
    }

    pub fn current_code(&self) -> (r: &str)
        ensures
            r@ == self.lang_data().meta.code@,
    {
        self.data.meta.code.as_str()
    }

    pub fn fullscreen_entered(&self) -> (r: &str)
        ensures
            r@ == self.lang_data().toast.fullscreen_entered@,
    {
        self.data.toast.fullscreen_entered.as_str()
    }

    pub fn fullscreen_exited(&self) -> (r: &str)
        ensures
            r@ == self.lang_data().toast.fullscreen_exited@,
    {
        self.data.toast.fullscreen_exited.as_str()
    }

    pub fn fit_screen(&self) -> (r: &str)
        ensures
            r@ == self.lang_data().ui.fit_screen@,
    {
        self.data.ui.fit_screen.as_str()
    }

    pub fn fit_width(&self) -> (r: &str)
        ensures
            r@ == self.lang_data().ui.fit_width@,
    {
        self.data.ui.fit_width.as_str()
    }

    pub fn fit_height(&self) -> (r: &str)
        ensures
            r@ == self.lang_data().ui.fit_height@,
    {
        self.data.ui.fit_height.as_str()
    }

    pub fn label_settings(&self) -> (r: &str)
        ensures
            r@ == self.lang_data().ui.settings@,
    {
        self.data.ui.settings.as_str()
    }

    pub fn label_favorites(&self) -> (r: &str)
        ensures
            r@ == self.lang_data().ui.favorites@,
    {
        self.data.ui.favorites.as_str()
    }

    pub fn label_shortcuts(&self) -> (r: &str)
        ensures
            r@ == self.lang_data().ui.label_shortcuts@,
    {
        self.data.ui.label_shortcuts.as_str()
    }

    pub fn first_page_offset_on(&self) -> (r: &str)
        ensures
            r@ == self.lang_data().ui.first_page_offset_on@,
    {
        self.data.ui.first_page_offset_on.as_str()
    }

    pub fn first_page_offset_off(&self) -> (r: &str)
        ensures
            r@ == self.lang_data().ui.first_page_offset_off@,
    {
        self.data.ui.first_page_offset_off.as_str()
    }

    pub fn bookmark_limit_title(&self) -> (r: &str)
        ensures
            r@ == self.lang_data().ui.bookmark_limit_title@,
    {
        self.data.ui.bookmark_limit_title.as_str()
    }

    pub fn bookmark_limit_message(&self) -> (r: &str)
        ensures
            r@ == self.lang_data().ui.bookmark_limit_message@,
    {
        self.data.ui.bookmark_limit_message.as_str()
    }

    pub fn bookmark_saved(&self) -> (r: &str)
        ensures
            r@ == self.lang_data().toast.bookmark_saved@,
    {
        self.data.toast.bookmark_saved.as_str()
    }

    pub fn load_failed(&self) -> (r: &str)
        ensures
            r@ == self.lang_data().toast.load_failed@,
    {
        self.data.toast.load_failed.as_str()
    }

    pub fn nav_looped_first(&self) -> (r: &str)
        ensures
            r@ == self.lang_data().toast.nav_looped_first@,
    {
        self.data.toast.nav_looped_first.as_str()
    }

    pub fn nav_looped_last(&self) -> (r: &str)
        ensures
            r@ == self.lang_data().toast.nav_looped_last@,
    {
        self.data.toast.nav_looped_last.as_str()
    }

    pub fn nav_no_valid_targets(&self) -> (r: &str)
        ensures
            r@ == self.lang_data().toast.nav_no_valid_targets@,
    {
        self.data.toast.nav_no_valid_targets.as_str()
    }

    pub fn rotation_not_supported_in_dual(&self) -> (r: &str)
        ensures
            r@ == self.lang_data().toast.rotation_not_supported_in_dual@,
    {
        self.data.toast.rotation_not_supported_in_dual.as_str()
    }

    pub fn webtoon_not_supported_for_animated(&self) -> (r: &str)
        ensures
            r@ == self.lang_data().toast.webtoon_not_supported_for_animated@,
    {
        self.data.toast.webtoon_not_supported_for_animated.as_str()
    }

    pub fn ui_windows_shown(&self) -> (r: &str)
        ensures
            r@ == self.lang_data().toast.ui_windows_shown@,
    {
        self.data.toast.ui_windows_shown.as_str()
    }

    pub fn ui_windows_hidden(&self) -> (r: &str)
        ensures
            r@ == self.lang_data().toast.ui_windows_hidden@,
    {
        self.data.toast.ui_windows_hidden.as_str()
    }

    pub fn slideshow_started(&self) -> (r: &str)
        ensures
            r@ == self.lang_data().toast.slideshow_started@,
    {
        self.data.toast.slideshow_started.as_str()
    }

    pub fn slideshow_stopped(&self) -> (r: &str)
        ensures
            r@ == self.lang_data().toast.slideshow_stopped@,
    {
        self.data.toast.slideshow_stopped.as_str()
    }

    pub fn file_association_deleted(&self) -> (r: &str)
        ensures
            r@ == self.lang_data().toast.file_association_deleted@,
    {
        self.data.toast.file_association_deleted.as_str()
    }

    pub fn context_menu_registered(&self) -> (r: &str)
        ensures
            r@ == self.lang_data().toast.context_menu_registered@,
    {
        self.data.toast.context_menu_registered.as_str()
    }

    pub fn context_menu_unregistered(&self) -> (r: &str)
        ensures
            r@ == self.lang_data().toast.context_menu_unregistered@,
    {
        self.data.toast.context_menu_unregistered.as_str()
    }

    pub fn file_association_applied(&self) -> (r: &str)
        ensures
            r@ == self.lang_data().toast.file_association_applied@,
    {
        self.data.toast.file_association_applied.as_str()
    }

    pub fn about_title(&self) -> (r: &str)
        ensures
            r@ == self.lang_data().ui.about_title@,
    {
        self.data.ui.about_title.as_str()
    }

    pub fn about_description(&self) -> (r: &str)
        ensures
            r@ == self.lang_data().ui.about_description@,
    {
        self.data.ui.about_description.as_str()
    }

    pub fn info(&self) -> (r: &LangInfo)
        ensures
            *r == self.lang_data().ui.info,
    {
        &self.data.ui.info
    }

    pub fn exif(&self) -> (r: &LangExif)
        ensures
            *r == self.lang_data().ui.exif,
    {
        &self.data.ui.exif
    }

    pub fn view_mode(&self) -> (r: &LangViewMode)
        ensures
            *r == self.lang_data().ui.view_mode,
    {
        &self.data.ui.view_mode
    }

    pub fn filter(&self) -> (r: &LangFilter)
        ensures
            *r == self.lang_data().ui.filter,
    {
        &self.data.ui.filter
    }

    pub fn preference(&self) -> (r: &LangPreference)
        ensures
            *r == self.lang_data().ui.preference,
    {
        &self.data.ui.preference
    }

    pub fn file_association(&self) -> (r: &LangFileAssociation)
        ensures
            *r == self.lang_data().ui.file_association,
    {
        &self.data.ui.file_association
    }

    pub fn bookmark(&self) -> (r: &LangBookmark)
        ensures
            *r == self.lang_data().ui.bookmark,
    {
        &self.data.ui.bookmark
    }

    pub fn shortcuts_list(&self) -> (r: &LangShortcuts)
        ensures
            *r == self.lang_data().ui.shortcuts_list,
    {
        &self.data.ui.shortcuts_list
    }

    pub fn moved_to(&self, name: &str) -> (r: String)
        ensures
            r@ == replace_all(self.lang_data().toast.moved_to_format@, "{0}"@, name@),
    {
        proof {
            reveal_strlit("{0}");
        }
        replace_placeholder(self.data.toast.moved_to_format.as_str(), "{0}", name)
    }

    pub fn nav_skipped_empty(&self, name: &str) -> (r: String)
        ensures
            r@ == replace_all(self.lang_data().toast.nav_skipped_empty@, "{0}"@, name@),
    {
        proof {
            reveal_strlit("{0}");
        }
        replace_placeholder(self.data.toast.nav_skipped_empty.as_str(), "{0}", name)
    }

    pub fn file_association_failed(&self, error: &str) -> (r: String)
        ensures
            r@ == replace_all(self.lang_data().toast.file_association_failed@, "{0}"@, error@),
    {
        proof {
            reveal_strlit("{0}");
        }
        replace_placeholder(self.data.toast.file_association_failed.as_str(), "{0}", error)
    }

    pub fn context_menu_register_failed(&self, error: &str) -> (r: String)
        ensures
            r@ == replace_all(self.lang_data().toast.context_menu_register_failed@, "{0}"@, error@),
    {
        proof {
            reveal_strlit("{0}");
        }
        replace_placeholder(self.data.toast.context_menu_register_failed.as_str(), "{0}", error)
    }

    pub fn context_menu_unregister_failed(&self, error: &str) -> (r: String)
        ensures
            r@ == replace_all(self.lang_data().toast.context_menu_unregister_failed@, "{0}"@, error@),
    {
        proof {
            reveal_strlit("{0}");
        }
        replace_placeholder(self.data.toast.context_menu_unregister_failed.as_str(), "{0}", error)
    }

    pub fn directory_context_menu_register_failed(&self, error: &str) -> (r: String)
        ensures
            r@ == replace_all(self.lang_data().toast.directory_context_menu_register_failed@, "{0}"@, error@),
    {
        proof {
            reveal_strlit("{0}");
        }
        replace_placeholder(self.data.toast.directory_context_menu_register_failed.as_str(), "{0}", error)
    }

    pub fn directory_context_menu_unregister_failed(&self, error: &str) -> (r: String)
        ensures
            r@ == replace_all(self.lang_data().toast.directory_context_menu_unregister_failed@, "{0}"@, error@),
    {
        proof {
            reveal_strlit("{0}");
        }
        replace_placeholder(self.data.toast.directory_context_menu_unregister_failed.as_str(), "{0}", error)
    }

    pub fn file_association_apply_failed(&self, error: &str) -> (r: String)
        ensures
            r@ == replace_all(self.lang_data().toast.file_association_apply_failed@, "{0}"@, error@),
    {
        proof {
            reveal_strlit("{0}");
        }
        replace_placeholder(self.data.toast.file_association_apply_failed.as_str(), "{0}", error)
    }
    /// The notice text, or the built-in English one when the language leaves it empty.
    pub fn start_menu_registered(&self) -> (r: &str)
        ensures
            r@ == (if self.lang_data().toast.start_menu_registered@.len() == 0 {
                "Start menu shortcut registered."@
            } else {
                self.lang_data().toast.start_menu_registered@
            }),
    {
        if self.data.toast.start_menu_registered.as_str().is_empty() {
            "Start menu shortcut registered."
        } else {
            self.data.toast.start_menu_registered.as_str()
        }
    }

    /// The notice text, or the built-in English one when the language leaves it empty.
    pub fn start_menu_unregistered(&self) -> (r: &str)
        ensures
            r@ == (if self.lang_data().toast.start_menu_unregistered@.len() == 0 {
                "Start menu shortcut deleted."@
            } else {
                self.lang_data().toast.start_menu_unregistered@
            }),
    {
        if self.data.toast.start_menu_unregistered.as_str().is_empty() {
            "Start menu shortcut deleted."
        } else {
            self.data.toast.start_menu_unregistered.as_str()
        }
    }

    /// The failure notice for `error`; the built-in English template stands in for an empty one.
    pub fn start_menu_register_failed(&self, error: &str) -> (r: String)
        ensures
            r@ == replace_all(
                if self.lang_data().toast.start_menu_register_failed@.len() == 0 {
                    "Failed to register start menu shortcut: {0}"@
                } else {
                    self.lang_data().toast.start_menu_register_failed@
                },
                "{0}"@,
                error@,
            ),
    {
        proof {
            reveal_strlit("{0}");
        }
        let template: &str = if self.data.toast.start_menu_register_failed.as_str().is_empty() {
            "Failed to register start menu shortcut: {0}"
        } else {
            self.data.toast.start_menu_register_failed.as_str()
        };
        replace_placeholder(template, "{0}", error)
    }

    /// The failure notice for `error`; the built-in English template stands in for an empty one.
    pub fn start_menu_unregister_failed(&self, error: &str) -> (r: String)
        ensures
            r@ == replace_all(
                if self.lang_data().toast.start_menu_unregister_failed@.len() == 0 {
                    "Failed to delete start menu shortcut: {0}"@
                } else {
                    self.lang_data().toast.start_menu_unregister_failed@
                },
                "{0}"@,
                error@,
            ),
    {
        proof {
            reveal_strlit("{0}");
        }
        let template: &str = if self.data.toast.start_menu_unregister_failed.as_str().is_empty() {
            "Failed to delete start menu shortcut: {0}"
        } else {
            self.data.toast.start_menu_unregister_failed.as_str()
        };
        replace_placeholder(template, "{0}", error)
    }

    /// The zoom notice, with the zoom percentage already written as `percent_text`
    /// (the caller formats the number with one decimal).
    pub fn zoom_percent(&self, percent_text: &str) -> (r: String)
        ensures
            r@ == replace_all(self.lang_data().toast.zoom_format@, "{0}"@, percent_text@),
    {
        proof {
            reveal_strlit("{0}");
        }
        replace_placeholder(self.data.toast.zoom_format.as_str(), "{0}", percent_text)
    }

    /// The label of a layout mode.
    pub fn layout_mode_label(&self, mode: LayoutMode) -> (r: &str)
        ensures
            r@ == match mode {
                LayoutMode::Single => self.lang_data().ui.layout_single@,
                LayoutMode::Dual { rtl, .. } => if rtl {
                    self.lang_data().ui.layout_dual_rtl@
                } else {
                    self.lang_data().ui.layout_dual_ltr@
                },
                LayoutMode::VerticalScroll => self.lang_data().ui.layout_vertical_scroll@,
            },
    {
        match mode {
            LayoutMode::Single => self.data.ui.layout_single.as_str(),
            LayoutMode::Dual { rtl, .. } => if rtl {
                self.data.ui.layout_dual_rtl.as_str()
            } else {
                self.data.ui.layout_dual_ltr.as_str()
            },
            LayoutMode::VerticalScroll => self.data.ui.layout_vertical_scroll.as_str(),
        }
    }

    /// The repeat label with `count` written in decimal.
    pub fn slideshow_repeat_label(&self, count: u32) -> (r: String)
        ensures
            r@ == replace_all(
                self.lang_data().ui.view_mode.slideshow_repeat_format@,
                "{0}"@,
                decimal(count as nat),
            ),
    {
        proof {
            reveal_strlit("{0}");
        }
        let n = decimal_string(count as usize);
        replace_placeholder(self.data.ui.view_mode.slideshow_repeat_format.as_str(), "{0}", n.as_str())
    }

    /// The template with `{0}` replaced by `current` and then `{1}` by `max`, in decimal.
    pub fn ram_cache_display(&self, current: usize, max: usize) -> (r: String)
        ensures
            r@ == replace_all(
                replace_all(self.lang_data().ui.info.ram_cache_format@, "{0}"@, decimal(current as nat)),
                "{1}"@,
                decimal(max as nat),
            ),
    {
        proof {
            reveal_strlit("{0}");
            reveal_strlit("{1}");
        }
        let c = decimal_string(current);
        let m = decimal_string(max);
        let first = replace_placeholder(self.data.ui.info.ram_cache_format.as_str(), "{0}", c.as_str());
        replace_placeholder(first.as_str(), "{1}", m.as_str())
    }

    /// The template with `{0}` replaced by `current` and then `{1}` by `max`, in decimal.
    pub fn ram_cache_setting_label(&self, current: usize, max: usize) -> (r: String)
        ensures
            r@ == replace_all(
                replace_all(self.lang_data().ui.preference.ram_cache_setting@, "{0}"@, decimal(current as nat)),
                "{1}"@,
                decimal(max as nat),
            ),
    {
        proof {
            reveal_strlit("{0}");
            reveal_strlit("{1}");
        }
        let c = decimal_string(current);
        let m = decimal_string(max);
        let first = replace_placeholder(self.data.ui.preference.ram_cache_setting.as_str(), "{0}", c.as_str());
        replace_placeholder(first.as_str(), "{1}", m.as_str())
    }

    /// The template with `{0}` replaced by `current` and then `{1}` by `max`, in decimal.
    pub fn vram_cache_setting_label(&self, current: usize, max: usize) -> (r: String)
        ensures
            r@ == replace_all(
                replace_all(self.lang_data().ui.preference.vram_cache_setting@, "{0}"@, decimal(current as nat)),
                "{1}"@,
                decimal(max as nat),
            ),
    {
        proof {
            reveal_strlit("{0}");
            reveal_strlit("{1}");
        }
        let c = decimal_string(current);
        let m = decimal_string(max);
        let first = replace_placeholder(self.data.ui.preference.vram_cache_setting.as_str(), "{0}", c.as_str());
        replace_placeholder(first.as_str(), "{1}", m.as_str())
    }

    /// The localized name of the command with key `cmd_key` (empty for an unknown key).
    pub fn command_name(&self, cmd_key: &str) -> (r: &str)
        ensures
            r@ == command_label(self.lang_data().command, cmd_key@),
    {
        let c = &self.data.command;
        if str_equals(cmd_key, "navigate_previous") {
            c.navigate_previous.as_str()
        } else if str_equals(cmd_key, "navigate_next") {
            c.navigate_next.as_str()
        } else if str_equals(cmd_key, "navigate_first") {
            c.navigate_first.as_str()
        } else if str_equals(cmd_key, "navigate_last") {
            c.navigate_last.as_str()
        } else if str_equals(cmd_key, "navigate_previous_archive") {
            c.navigate_previous_archive.as_str()
        } else if str_equals(cmd_key, "navigate_next_archive") {
            c.navigate_next_archive.as_str()
        } else if str_equals(cmd_key, "set_fit_screen") {
            c.set_fit_screen.as_str()
        } else if str_equals(cmd_key, "set_fit_width") {
            c.set_fit_width.as_str()
        } else if str_equals(cmd_key, "set_fit_height") {
            c.set_fit_height.as_str()
        } else if str_equals(cmd_key, "cycle_layout_mode") {
            c.cycle_layout_mode.as_str()
        } else if str_equals(cmd_key, "toggle_first_page_offset") {
            c.toggle_first_page_offset.as_str()
        } else if str_equals(cmd_key, "zoom_in_step") {
            c.zoom_in_step.as_str()
        } else if str_equals(cmd_key, "zoom_out_step") {
            c.zoom_out_step.as_str()
        } else if str_equals(cmd_key, "rotate_ccw") {
            c.rotate_ccw.as_str()
        } else if str_equals(cmd_key, "rotate_cw") {
            c.rotate_cw.as_str()
        } else if str_equals(cmd_key, "save_manual_bookmark") {
            c.save_manual_bookmark.as_str()
        } else if str_equals(cmd_key, "reset_view") {
            c.reset_view.as_str()
        } else if str_equals(cmd_key, "toggle_fullscreen") {
            c.toggle_fullscreen.as_str()
        } else if str_equals(cmd_key, "toggle_ui_windows") {
            c.toggle_ui_windows.as_str()
        } else if str_equals(cmd_key, "adjust_offset_up") {
            c.adjust_offset_up.as_str()
        } else if str_equals(cmd_key, "adjust_offset_down") {
            c.adjust_offset_down.as_str()
        } else if str_equals(cmd_key, "adjust_offset_left") {
            c.adjust_offset_left.as_str()
        } else if str_equals(cmd_key, "adjust_offset_right") {
            c.adjust_offset_right.as_str()
        } else if str_equals(cmd_key, "open_file") {
            c.open_file.as_str()
        } else {
            proof {
                reveal_strlit("");
            }
            ""
        }
    }
}

} // verus!
