//! The texts of the history window, in Chinese and in English.
use vstd::prelude::*;

use crate::config::Language;
use crate::db::{ClipboardEntry, EntryKind};
use crate::text::{chars_of, decimal, extend_chars, format_u64, lines, lines_of, string_of};
use crate::ui::KindFilter;

verus! {

/// Text followed by more text.
fn concat(prefix: &str, rest: &str) -> (s: String)
    ensures
        s@ == prefix@ + rest@,
{
    let mut out = chars_of(prefix);
    let more = chars_of(rest);
    extend_chars(&mut out, &more);
    string_of(&out)
}

/// The label of a kind filter.
pub open spec fn filter_label_text(language: Language, filter: KindFilter) -> Seq<char> {
    match (language, filter) {
        (Language::ZhCn, KindFilter::All) => "全部"@,
        (Language::ZhCn, KindFilter::Text) => "文本"@,
        (Language::ZhCn, KindFilter::Url) => "网址"@,
        (Language::ZhCn, KindFilter::FilePaths) => "文件"@,
        (Language::ZhCn, KindFilter::Image) => "图片"@,
        (Language::En, KindFilter::All) => "All"@,
        (Language::En, KindFilter::Text) => "Text"@,
        (Language::En, KindFilter::Url) => "URL"@,
        (Language::En, KindFilter::FilePaths) => "Files"@,
        (Language::En, KindFilter::Image) => "Images"@,
    }
}

/// The label of a kind filter.
pub fn filter_label(language: Language, filter: KindFilter) -> (s: &'static str)
    ensures
        s@ == filter_label_text(language, filter),
{
    match (language, filter) {
        (Language::ZhCn, KindFilter::All) => "全部",
        (Language::ZhCn, KindFilter::Text) => "文本",
        (Language::ZhCn, KindFilter::Url) => "网址",
        (Language::ZhCn, KindFilter::FilePaths) => "文件",
        (Language::ZhCn, KindFilter::Image) => "图片",
        (Language::En, KindFilter::All) => "All",
        (Language::En, KindFilter::Text) => "Text",
        (Language::En, KindFilter::Url) => "URL",
        (Language::En, KindFilter::FilePaths) => "Files",
        (Language::En, KindFilter::Image) => "Images",
    }
}

/// The label of an entry's kind.
pub open spec fn kind_label_text(language: Language, kind: EntryKind) -> Seq<char> {
    match (language, kind) {
        (Language::ZhCn, EntryKind::Text) => "文本"@,
        (Language::ZhCn, EntryKind::Url) => "网址"@,
        (Language::ZhCn, EntryKind::FilePaths) => "文件"@,
        (Language::ZhCn, EntryKind::Image) => "图片"@,
        (Language::En, EntryKind::Text) => "Text"@,
        (Language::En, EntryKind::Url) => "URL"@,
        (Language::En, EntryKind::FilePaths) => "Files"@,
        (Language::En, EntryKind::Image) => "Image"@,
    }
}

/// The label of an entry's kind.
pub fn kind_label(language: Language, kind: &EntryKind) -> (s: &'static str)
    ensures
        s@ == kind_label_text(language, *kind),
{
    match (language, kind) {
        (Language::ZhCn, EntryKind::Text) => "文本",
        (Language::ZhCn, EntryKind::Url) => "网址",
        (Language::ZhCn, EntryKind::FilePaths) => "文件",
        (Language::ZhCn, EntryKind::Image) => "图片",
        (Language::En, EntryKind::Text) => "Text",
        (Language::En, EntryKind::Url) => "URL",
        (Language::En, EntryKind::FilePaths) => "Files",
        (Language::En, EntryKind::Image) => "Image",
    }
}

/// The English noun for a count of items: singular for one, plural otherwise.
pub open spec fn counted(count: nat, one: Seq<char>, many: Seq<char>) -> Seq<char> {
    decimal(count) + " "@ + if count == 1 {
        one
    } else {
        many
    }
}

/// The number of records shown.
pub open spec fn record_count_text(language: Language, count: nat) -> Seq<char> {
    match language {
        Language::ZhCn => decimal(count) + " 条记录"@,
        Language::En => counted(count, "record"@, "records"@),
    }
}

/// The number of records shown.
pub fn record_count(language: Language, count: usize) -> (s: String)
    ensures
        s@ == record_count_text(language, count as nat),
{
    let mut out = format_u64(count as u64);
    match language {
        Language::ZhCn => {
            let tail = chars_of(" 条记录");
            extend_chars(&mut out, &tail);
        },
        Language::En => {
            let noun = if count == 1 {
                chars_of(" record")
            } else {
                chars_of(" records")
            };
            extend_chars(&mut out, &noun);
            proof {
                reveal_strlit(" record");
                reveal_strlit(" records");
                reveal_strlit(" ");
                reveal_strlit("record");
                reveal_strlit("records");
            }
        },
    }
    string_of(&out)
}

/// The size line of an image entry.
pub open spec fn image_meta_text(language: Language, width: Option<u32>, height: Option<u32>) -> Seq<char> {
    match (width, height) {
        (Some(w), Some(h)) => match language {
            Language::ZhCn => "缩略图 "@ + decimal(w as nat) + "x"@ + decimal(h as nat),
            Language::En => "Thumbnail "@ + decimal(w as nat) + "x"@ + decimal(h as nat),
        },
        _ => match language {
            Language::ZhCn => "缩略图不可用"@,
            Language::En => "Thumbnail unavailable"@,
        },
    }
}

/// `prefix`, then the width, `x` and the height.
fn size_text(prefix: &str, width: u32, height: u32) -> (s: String)
    ensures
        s@ == prefix@ + decimal(width as nat) + "x"@ + decimal(height as nat),
{
    let mut out = chars_of(prefix);
    let w = format_u64(width as u64);
    extend_chars(&mut out, &w);
    let x = chars_of("x");
    extend_chars(&mut out, &x);
    let h = format_u64(height as u64);
    extend_chars(&mut out, &h);
    string_of(&out)
}

/// The size line of an image entry, in Chinese.
pub fn image_meta_zh(entry: &ClipboardEntry) -> (s: String)
    ensures
        s@ == image_meta_text(Language::ZhCn, entry.image_width, entry.image_height),
{
    match (entry.image_width, entry.image_height) {
        (Some(w), Some(h)) => size_text("缩略图 ", w, h),
        _ => "缩略图不可用".to_owned(),
    }
}

/// The size line of an image entry, in English.
pub fn image_meta_en(entry: &ClipboardEntry) -> (s: String)
    ensures
        s@ == image_meta_text(Language::En, entry.image_width, entry.image_height),
{
    match (entry.image_width, entry.image_height) {
        (Some(w), Some(h)) => size_text("Thumbnail ", w, h),
        _ => "Thumbnail unavailable".to_owned(),
    }
}

/// The detail line of an entry: a text's length in characters, a hint for a URL, a
/// file list's number of lines (and whether it carries a thumbnail), an image's size.
pub open spec fn meta_text_of(language: Language, kind: EntryKind, content: Seq<char>, has_pixels: bool, width: Option<u32>, height: Option<u32>) -> Seq<char> {
    let paths = lines(content).len();
    match (language, kind) {
        (_, EntryKind::Text) => decimal(content.len()) + " chars"@,
        (Language::ZhCn, EntryKind::Url) => "点击打开网址"@,
        (Language::En, EntryKind::Url) => "Click to open URL"@,
        (Language::ZhCn, EntryKind::FilePaths) => decimal(paths) + if has_pixels {
            " 个路径 · 含图片缩略图"@
        } else {
            " 个路径"@
        },
        (Language::En, EntryKind::FilePaths) => counted(paths, "path"@, "paths"@) + if has_pixels {
            " · image thumbnail"@
        } else {
            ""@
        },
        (_, EntryKind::Image) => image_meta_text(language, width, height),
    }
}

/// The detail line of an entry.
pub fn meta_text(language: Language, entry: &ClipboardEntry) -> (s: String)
    ensures
        s@ == meta_text_of(
            language,
            entry.kind,
            entry.content@,
            entry.image_rgba is Some,
            entry.image_width,
            entry.image_height,
        ),
{
    proof {
        reveal_strlit("");
        reveal_strlit(" ");
        reveal_strlit("path");
        reveal_strlit("paths");
        reveal_strlit(" path");
        reveal_strlit(" paths");
    }
    match entry.kind {
        EntryKind::Text => {
            let cs = chars_of(entry.content.as_str());
            let mut out = format_u64(cs.len() as u64);
            let tail = chars_of(" chars");
            extend_chars(&mut out, &tail);
            string_of(&out)
        },
        EntryKind::Url => match language {
            Language::ZhCn => "点击打开网址".to_owned(),
            Language::En => "Click to open URL".to_owned(),
        },
        EntryKind::FilePaths => {
            let cs = chars_of(entry.content.as_str());
            let ls = lines_of(&cs);
            let count = ls.len();
            assert(count == lines(entry.content@).len());
            let mut out = format_u64(count as u64);
            let has_pixels = entry.image_rgba.is_some();
            match language {
                Language::ZhCn => {
                    let tail = if has_pixels {
                        chars_of(" 个路径 · 含图片缩略图")
                    } else {
                        chars_of(" 个路径")
                    };
                    extend_chars(&mut out, &tail);
                },
                Language::En => {
                    let noun = if count == 1 {
                        chars_of(" path")
                    } else {
                        chars_of(" paths")
                    };
                    extend_chars(&mut out, &noun);
                    if has_pixels {
                        let tail = chars_of(" · image thumbnail");
                        extend_chars(&mut out, &tail);
                    }
                    proof {
                        let base = counted(count as nat, "path"@, "paths"@);
                        assert(base + ""@ =~= base);
                    }
                },
            }
            string_of(&out)
        },
        EntryKind::Image => match language {
            Language::ZhCn => image_meta_zh(entry),
            Language::En => image_meta_en(entry),
        },
    }
}

/// The text "Clipboard".
pub fn app_title(language: Language) -> (s: &'static str)
    ensures
        s@ == match language {
            Language::ZhCn => "剪贴板"@,
            Language::En => "Clipboard"@,
        },
{
    match language {
        Language::ZhCn => "剪贴板",
        Language::En => "Clipboard",
    }
}

/// The text "Settings".
pub fn settings(language: Language) -> (s: &'static str)
    ensures
        s@ == match language {
            Language::ZhCn => "设置"@,
            Language::En => "Settings"@,
        },
{
    match language {
        Language::ZhCn => "设置",
        Language::En => "Settings",
    }
}

/// The text "Search clipboard history".
pub fn search_hint(language: Language) -> (s: &'static str)
    ensures
        s@ == match language {
            Language::ZhCn => "搜索剪贴板历史"@,
            Language::En => "Search clipboard history"@,
        },
{
    match language {
        Language::ZhCn => "搜索剪贴板历史",
        Language::En => "Search clipboard history",
    }
}

/// The text "Language".
pub fn language_label(language: Language) -> (s: &'static str)
    ensures
        s@ == match language {
            Language::ZhCn => "界面语言"@,
            Language::En => "Language"@,
        },
{
    match language {
        Language::ZhCn => "界面语言",
        Language::En => "Language",
    }
}

/// The text "English".
pub fn language_name(language: Language) -> (s: &'static str)
    ensures
        s@ == match language {
            Language::ZhCn => "中文"@,
            Language::En => "English"@,
        },
{
    match language {
        Language::ZhCn => "中文",
        Language::En => "English",
    }
}

/// The text "Hide window after copy".
pub fn hide_after_copy(language: Language) -> (s: &'static str)
    ensures
        s@ == match language {
            Language::ZhCn => "复制后隐藏窗口"@,
            Language::En => "Hide window after copy"@,
        },
{
    match language {
        Language::ZhCn => "复制后隐藏窗口",
        Language::En => "Hide window after copy",
    }
}

/// The text "Close/minimize to tray".
pub fn hide_to_tray_on_close(language: Language) -> (s: &'static str)
    ensures
        s@ == match language {
            Language::ZhCn => "关闭/最小化到托盘"@,
            Language::En => "Close/minimize to tray"@,
        },
{
    match language {
        Language::ZhCn => "关闭/最小化到托盘",
        Language::En => "Close/minimize to tray",
    }
}

/// The text "Dark theme".
pub fn dark_mode(language: Language) -> (s: &'static str)
    ensures
        s@ == match language {
            Language::ZhCn => "深色主题"@,
            Language::En => "Dark theme"@,
        },
{
    match language {
        Language::ZhCn => "深色主题",
        Language::En => "Dark theme",
    }
}

/// The text "Use Win+V shortcut".
pub fn win_v_hotkey(language: Language) -> (s: &'static str)
    ensures
        s@ == match language {
            Language::ZhCn => "尝试用 Win+V 呼出"@,
            Language::En => "Use Win+V shortcut"@,
        },
{
    match language {
        Language::ZhCn => "尝试用 Win+V 呼出",
        Language::En => "Use Win+V shortcut",
    }
}

/// The text "Start on boot".
pub fn start_on_boot(language: Language) -> (s: &'static str)
    ensures
        s@ == match language {
            Language::ZhCn => "开机自启"@,
            Language::En => "Start on boot"@,
        },
{
    match language {
        Language::ZhCn => "开机自启",
        Language::En => "Start on boot",
    }
}

/// The text "Max history".
pub fn max_history(language: Language) -> (s: &'static str)
    ensures
        s@ == match language {
            Language::ZhCn => "最大历史数"@,
            Language::En => "Max history"@,
        },
{
    match language {
        Language::ZhCn => "最大历史数",
        Language::En => "Max history",
    }
}

/// The text "No clipboard history yet".
pub fn empty_title(language: Language) -> (s: &'static str)
    ensures
        s@ == match language {
            Language::ZhCn => "暂无剪贴板历史"@,
            Language::En => "No clipboard history yet"@,
        },
{
    match language {
        Language::ZhCn => "暂无剪贴板历史",
        Language::En => "No clipboard history yet",
    }
}

/// The text "Copy text, files, or images and they will appear here.".
pub fn empty_body(language: Language) -> (s: &'static str)
    ensures
        s@ == match language {
            Language::ZhCn => "复制文本、文件或图片后会显示在这里。"@,
            Language::En => "Copy text, files, or images and they will appear here."@,
        },
{
    match language {
        Language::ZhCn => "复制文本、文件或图片后会显示在这里。",
        Language::En => "Copy text, files, or images and they will appear here.",
    }
}

/// The text "Ready".
pub fn ready(language: Language) -> (s: &'static str)
    ensures
        s@ == match language {
            Language::ZhCn => "就绪"@,
            Language::En => "Ready"@,
        },
{
    match language {
        Language::ZhCn => "就绪",
        Language::En => "Ready",
    }
}

/// The text "Settings saved".
pub fn settings_saved(language: Language) -> (s: &'static str)
    ensures
        s@ == match language {
            Language::ZhCn => "设置已保存"@,
            Language::En => "Settings saved"@,
        },
{
    match language {
        Language::ZhCn => "设置已保存",
        Language::En => "Settings saved",
    }
}

/// The text "Copied".
pub fn copied(language: Language) -> (s: &'static str)
    ensures
        s@ == match language {
            Language::ZhCn => "已复制"@,
            Language::En => "Copied"@,
        },
{
    match language {
        Language::ZhCn => "已复制",
        Language::En => "Copied",
    }
}

/// The text "URL opened".
pub fn url_opened(language: Language) -> (s: &'static str)
    ensures
        s@ == match language {
            Language::ZhCn => "已打开网址"@,
            Language::En => "URL opened"@,
        },
{
    match language {
        Language::ZhCn => "已打开网址",
        Language::En => "URL opened",
    }
}

/// The text "Start on boot enabled".
pub fn startup_enabled(language: Language) -> (s: &'static str)
    ensures
        s@ == match language {
            Language::ZhCn => "已启用开机自启"@,
            Language::En => "Start on boot enabled"@,
        },
{
    match language {
        Language::ZhCn => "已启用开机自启",
        Language::En => "Start on boot enabled",
    }
}

/// The text "Start on boot disabled".
pub fn startup_disabled(language: Language) -> (s: &'static str)
    ensures
        s@ == match language {
            Language::ZhCn => "已关闭开机自启"@,
            Language::En => "Start on boot disabled"@,
        },
{
    match language {
        Language::ZhCn => "已关闭开机自启",
        Language::En => "Start on boot disabled",
    }
}

/// The text "Enabling start on boot...".
pub fn startup_enabling(language: Language) -> (s: &'static str)
    ensures
        s@ == match language {
            Language::ZhCn => "正在启用开机自启..."@,
            Language::En => "Enabling start on boot..."@,
        },
{
    match language {
        Language::ZhCn => "正在启用开机自启...",
        Language::En => "Enabling start on boot...",
    }
}

/// The text "Disabling start on boot...".
pub fn startup_disabling(language: Language) -> (s: &'static str)
    ensures
        s@ == match language {
            Language::ZhCn => "正在关闭开机自启..."@,
            Language::En => "Disabling start on boot..."@,
        },
{
    match language {
        Language::ZhCn => "正在关闭开机自启...",
        Language::En => "Disabling start on boot...",
    }
}

/// The text "Hidden to tray".
pub fn hidden_to_tray(language: Language) -> (s: &'static str)
    ensures
        s@ == match language {
            Language::ZhCn => "已隐藏到托盘"@,
            Language::En => "Hidden to tray"@,
        },
{
    match language {
        Language::ZhCn => "已隐藏到托盘",
        Language::En => "Hidden to tray",
    }
}

/// The text "Minimized to tray".
pub fn minimized_to_tray(language: Language) -> (s: &'static str)
    ensures
        s@ == match language {
            Language::ZhCn => "已最小化到托盘"@,
            Language::En => "Minimized to tray"@,
        },
{
    match language {
        Language::ZhCn => "已最小化到托盘",
        Language::En => "Minimized to tray",
    }
}

/// The text "Win+V setting takes effect after restart".
pub fn win_v_restart_required(language: Language) -> (s: &'static str)
    ensures
        s@ == match language {
            Language::ZhCn => "Win+V 设置重启后生效"@,
            Language::En => "Win+V setting takes effect after restart"@,
        },
{
    match language {
        Language::ZhCn => "Win+V 设置重启后生效",
        Language::En => "Win+V setting takes effect after restart",
    }
}

/// The text "Deleted".
pub fn deleted(language: Language) -> (s: &'static str)
    ensures
        s@ == match language {
            Language::ZhCn => "已删除"@,
            Language::En => "Deleted"@,
        },
{
    match language {
        Language::ZhCn => "已删除",
        Language::En => "Deleted",
    }
}

/// The text "Entry no longer exists".
pub fn entry_missing(language: Language) -> (s: &'static str)
    ensures
        s@ == match language {
            Language::ZhCn => "记录已不存在"@,
            Language::En => "Entry no longer exists"@,
        },
{
    match language {
        Language::ZhCn => "记录已不存在",
        Language::En => "Entry no longer exists",
    }
}

/// The text "Not a valid http/https URL".
pub fn invalid_url(language: Language) -> (s: &'static str)
    ensures
        s@ == match language {
            Language::ZhCn => "不是有效的 http/https 网址"@,
            Language::En => "Not a valid http/https URL"@,
        },
{
    match language {
        Language::ZhCn => "不是有效的 http/https 网址",
        Language::En => "Not a valid http/https URL",
    }
}

/// The text "Failed to read database: " followed by the error's text.
pub fn database_read_failed(language: Language, error: &str) -> (s: String)
    ensures
        s@ == match language {
            Language::ZhCn => "读取数据库失败: "@,
            Language::En => "Failed to read database: "@,
        } + error@,
{
    let prefix = match language {
        Language::ZhCn => "读取数据库失败: ",
        Language::En => "Failed to read database: ",
    };
    concat(prefix, error)
}

/// The text "Failed to write database: " followed by the error's text.
pub fn database_write_failed(language: Language, error: &str) -> (s: String)
    ensures
        s@ == match language {
            Language::ZhCn => "写入数据库失败: "@,
            Language::En => "Failed to write database: "@,
        } + error@,
{
    let prefix = match language {
        Language::ZhCn => "写入数据库失败: ",
        Language::En => "Failed to write database: ",
    };
    concat(prefix, error)
}

/// The text "Failed to save settings: " followed by the error's text.
pub fn settings_save_failed(language: Language, error: &str) -> (s: String)
    ensures
        s@ == match language {
            Language::ZhCn => "保存设置失败: "@,
            Language::En => "Failed to save settings: "@,
        } + error@,
{
    let prefix = match language {
        Language::ZhCn => "保存设置失败: ",
        Language::En => "Failed to save settings: ",
    };
    concat(prefix, error)
}

/// The text "Failed to write clipboard: " followed by the error's text.
pub fn clipboard_write_failed(language: Language, error: &str) -> (s: String)
    ensures
        s@ == match language {
            Language::ZhCn => "写入剪贴板失败: "@,
            Language::En => "Failed to write clipboard: "@,
        } + error@,
{
    let prefix = match language {
        Language::ZhCn => "写入剪贴板失败: ",
        Language::En => "Failed to write clipboard: ",
    };
    concat(prefix, error)
}

/// The text "Failed to open URL: " followed by the error's text.
pub fn url_open_failed(language: Language, error: &str) -> (s: String)
    ensures
        s@ == match language {
            Language::ZhCn => "打开网址失败: "@,
            Language::En => "Failed to open URL: "@,
        } + error@,
{
    let prefix = match language {
        Language::ZhCn => "打开网址失败: ",
        Language::En => "Failed to open URL: ",
    };
    concat(prefix, error)
}

/// The text "Failed to change start on boot: " followed by the error's text.
pub fn startup_failed(language: Language, error: &str) -> (s: String)
    ensures
        s@ == match language {
            Language::ZhCn => "开机自启设置失败: "@,
            Language::En => "Failed to change start on boot: "@,
        } + error@,
{
    let prefix = match language {
        Language::ZhCn => "开机自启设置失败: ",
        Language::En => "Failed to change start on boot: ",
    };
    concat(prefix, error)
}

/// The text "Failed to delete: " followed by the error's text.
pub fn delete_failed(language: Language, error: &str) -> (s: String)
    ensures
        s@ == match language {
            Language::ZhCn => "删除失败: "@,
            Language::En => "Failed to delete: "@,
        } + error@,
{
    let prefix = match language {
        Language::ZhCn => "删除失败: ",
        Language::En => "Failed to delete: ",
    };
    concat(prefix, error)
}

/// The text "Open command returned a failed status: " followed by the status's text.
pub fn browser_command_failed(language: Language, status: &str) -> (s: String)
    ensures
        s@ == match language {
            Language::ZhCn => "打开命令返回失败状态: "@,
            Language::En => "Open command returned a failed status: "@,
        } + status@,
{
    let prefix = match language {
        Language::ZhCn => "打开命令返回失败状态: ",
        Language::En => "Open command returned a failed status: ",
    };
    concat(prefix, status)
}

/// The text "Failed to call system browser: " followed by the error's text.
pub fn browser_unavailable(language: Language, error: &str) -> (s: String)
    ensures
        s@ == match language {
            Language::ZhCn => "无法调用系统浏览器: "@,
            Language::En => "Failed to call system browser: "@,
        } + error@,
{
    let prefix = match language {
        Language::ZhCn => "无法调用系统浏览器: ",
        Language::En => "Failed to call system browser: ",
    };
    concat(prefix, error)
}

} // verus!
