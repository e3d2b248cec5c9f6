//! Starting with Windows (the `Run` registry value) and the first-run
//! migration of the configuration file.

use vstd::prelude::*;
use vstd::string::*;

use crate::assets::{find, find_from};
use crate::text::owned;

verus! {

/// The name of the value under the current user's `Run` key.
pub open spec fn startup_value_name() -> Seq<char> {
    "TBWidget"@
}

/// Whether starting with Windows is on: the registry query succeeded and
/// its output names the value.
pub fn startup_enabled_from_query(succeeded: bool, output: &str) -> (enabled: bool)
    ensures
        enabled == (succeeded && find_from(output@, startup_value_name(), 0) is Some),
{
    succeeded && find(output, "TBWidget").is_some()
}

/// The command stored in the `Run` value: the executable path in quotes.
pub fn startup_command(executable: &str) -> (command: String)
    ensures
        command@ == "\""@ + executable@ + "\""@,
{
    let mut command = owned("\"");
    command.append(executable);
    command.append("\"");
    command
}

/// Turning the start with Windows on fails when the registry tool fails;
/// turning it off does not.
pub fn startup_change_result(tool_succeeded: bool, enabled: bool) -> (r: Result<(), String>)
    ensures
        match r {
            Ok(()) => tool_succeeded || !enabled,
            Err(e) => !tool_succeeded && enabled && e@ == "写入开机启动项失败"@,
        },
{
    if !tool_succeeded && enabled {
        Err(owned("写入开机启动项失败"))
    } else {
        Ok(())
    }
}

/// A file is copied only to a destination that does not exist yet, from a
/// source that is a file other than the destination.
pub fn should_copy_file(destination_exists: bool, source_is_file: bool, same_path: bool) -> (r: bool)
    ensures
        r == (!destination_exists && source_is_file && !same_path),
{
    !(destination_exists || !source_is_file || same_path)
}

/// The configuration next to the executable moves to `save/config` on the
/// first run that finds no configuration there.
pub fn should_migrate_config(config_is_file: bool, legacy_is_file: bool) -> (r: bool)
    ensures
        r == (!config_is_file && legacy_is_file),
{
    !config_is_file && legacy_is_file
}

} // verus!
