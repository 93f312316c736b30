//! The JSON files of the front end's small database: what reading one
//! answers, and the text that writing one stores.
use vstd::prelude::*;
use crate::external::{
    json_document, json_null, json_parse_error, json_parses, json_pretty, json_pretty_text,
    parse_json_value,
};
use crate::models::CommandResult;

verus! {

/// The answer for a database file's text once the JSON reader has read it:
/// the document it gave, or `PARSE_FAILED` with the reader's message.
pub fn json_read_reply(parsed: Result<serde_json::Value, String>) -> (r: CommandResult<
    serde_json::Value,
>)
    ensures
        match parsed {
            Ok(v) => r.ok && r.data == Some(v) && r.error is None,
            Err(m) => !r.ok && r.data is None && r.error is Some && r.error->0.code@
                == "PARSE_FAILED"@ && r.error->0.message@ == m@,
        },
{
    match parsed {
        Ok(v) => CommandResult::success(v),
        Err(m) => CommandResult::error("PARSE_FAILED", m.as_str()),
    }
}

/// The answer to reading a database file. A file that does not exist reads
/// as the JSON `null` (successfully, the document of the text `null`); one that could not be read gives
/// `READ_FAILED` with the reader's message (`content` is `Err`); a text
/// that is not JSON gives `PARSE_FAILED` with the parser's message; any
/// other text succeeds with the document it holds.
pub fn database_json_reply(file_exists: bool, content: Result<&str, &str>) -> (r: CommandResult<
    serde_json::Value,
>)
    ensures
        !file_exists ==> r.ok && r.data == Some(json_document("null"@)) && r.error is None,
        file_exists ==> match content {
            Err(e) => !r.ok && r.data is None && r.error is Some && r.error->0.code@
                == "READ_FAILED"@ && r.error->0.message@ == e@,
            Ok(text) => if json_parses(text@) {
                r.ok && r.data == Some(json_document(text@)) && r.error is None
            } else {
                &&& !r.ok && r.data is None && r.error is Some
                &&& r.error->0.code@ == "PARSE_FAILED"@
                &&& Some(r.error->0.message@) == json_parse_error(text@)
            },
        },
{
    if !file_exists {
        return CommandResult::success(json_null());
    }
    match content {
        Err(e) => CommandResult::error("READ_FAILED", e),
        Ok(text) => json_read_reply(parse_json_value(text)),
    }
}

/// The text stored for a database value: the value written as indented
/// JSON (`json_pretty`), which always succeeds (a failure would be
/// `SERIALIZE_FAILED` with the writer's message).
pub fn database_json_text(value: &serde_json::Value) -> (r: Result<String, CommandResult<bool>>)
    ensures
        r matches Ok(t) && t@ == json_pretty(*value),
{
    match json_pretty_text(value) {
        Ok(t) => Ok(t),
        Err(m) => Err(CommandResult::error("SERIALIZE_FAILED", m.as_str())),
    }
}

} // verus!
