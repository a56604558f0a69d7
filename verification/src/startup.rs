//! Starting with the system: the command that registers or unregisters the program,
//! and what its outcome means.
use vstd::prelude::*;

use crate::text::{chars_of, extend_chars, string_of};

verus! {

/// The registry key of the programs started at log-in.
pub open spec fn run_key() -> Seq<char> {
    "HKCU\\Software\\Microsoft\\Windows\\CurrentVersion\\Run"@
}

/// The name the program is registered under.
pub open spec fn app_name() -> Seq<char> {
    "Ecp Clipboard"@
}

/// The arguments of `reg` that register the program at `exe_path` (quoted), or
/// remove its registration.
pub open spec fn reg_args(enabled: bool, exe_path: Seq<char>) -> Seq<Seq<char>> {
    if enabled {
        seq![
            "add"@,
            run_key(),
            "/v"@,
            app_name(),
            "/t"@,
            "REG_SZ"@,
            "/d"@,
            "\""@ + exe_path + "\""@,
            "/f"@,
        ]
    } else {
        seq!["delete"@, run_key(), "/v"@, app_name(), "/f"@]
    }
}

/// The models of a list of strings.
pub open spec fn args_view(list: Seq<String>) -> Seq<Seq<char>> {
    list.map_values(|s: String| s@)
}

/// The `reg` arguments that turn starting with the system on or off, given the path of
/// the running program, or the error of looking it up.
pub fn set_enabled(enabled: bool, exe_path: Result<String, String>) -> (res: Result<Vec<String>, String>)
    ensures
        match exe_path {
            Ok(p) => res matches Ok(args) && args_view(args@) == reg_args(enabled, p@),
            Err(e) => res matches Err(m) && m@ == "无法获取当前程序路径: "@ + e@,
        },
{
    let path = match exe_path {
        Ok(p) => p,
        Err(e) => {
            let mut msg = chars_of("无法获取当前程序路径: ");
            let detail = chars_of(e.as_str());
            extend_chars(&mut msg, &detail);
            return Err(string_of(&msg));
        },
    };
    let mut args: Vec<String> = Vec::new();
    if enabled {
        let mut quoted = chars_of("\"");
        let p = chars_of(path.as_str());
        extend_chars(&mut quoted, &p);
        let q = chars_of("\"");
        extend_chars(&mut quoted, &q);
        args.push("add".to_owned());
        args.push("HKCU\\Software\\Microsoft\\Windows\\CurrentVersion\\Run".to_owned());
        args.push("/v".to_owned());
        args.push("Ecp Clipboard".to_owned());
        args.push("/t".to_owned());
        args.push("REG_SZ".to_owned());
        args.push("/d".to_owned());
        args.push(string_of(&quoted));
        args.push("/f".to_owned());
    } else {
        args.push("delete".to_owned());
        args.push("HKCU\\Software\\Microsoft\\Windows\\CurrentVersion\\Run".to_owned());
        args.push("/v".to_owned());
        args.push("Ecp Clipboard".to_owned());
        args.push("/f".to_owned());
    }
    assert(args_view(args@) =~= reg_args(enabled, path@));
    Ok(args)
}

/// How running `reg` went.
#[derive(Debug)]
pub enum RegRun {
    /// It ran and exited with this status: whether it succeeded, and its text.
    Exited { success: bool, status: String },
    /// It could not be run; the error's text.
    Unavailable(String),
}

/// What running `reg` means for the setting.
pub fn reg_outcome(run: RegRun) -> (res: Result<(), String>)
    ensures
        match run {
            RegRun::Exited { success, status } => if success {
                res is Ok
            } else {
                res matches Err(m) && m@ == "reg.exe 返回失败状态: "@ + status@
            },
            RegRun::Unavailable(e) => res matches Err(m) && m@ == "无法调用 reg.exe: "@ + e@,
        },
{
    match run {
        RegRun::Exited { success, status } => {
            if success {
                Ok(())
            } else {
                let mut msg = chars_of("reg.exe 返回失败状态: ");
                let detail = chars_of(status.as_str());
                extend_chars(&mut msg, &detail);
                Err(string_of(&msg))
            }
        },
        RegRun::Unavailable(e) => {
            let mut msg = chars_of("无法调用 reg.exe: ");
            let detail = chars_of(e.as_str());
            extend_chars(&mut msg, &detail);
            Err(string_of(&msg))
        },
    }
}

/// Starting with the system where it is not supported: always refused.
pub fn unsupported_platform() -> (res: Result<(), String>)
    ensures
        res matches Err(m) && m@ == "当前平台暂不支持开机自启"@,
{
    Err(String::from_str("当前平台暂不支持开机自启"))
}

} // verus!
