use vstd::prelude::*;

use crate::basic_agents::Message;

verus! {

/// Where the pipeline reads its code template and writes its artifacts.
///
/// The paths are process-wide configuration chosen by the embedding
/// program, not per-run state; the library never touches the file system
/// itself.
#[derive(Clone, Debug)]
pub struct PipelineConfig {
    /// Source of the code template handed to the generation step.
    pub code_template_path: String,
    /// Where generated server code is persisted.
    pub exec_main_path: String,
    /// Where the raw extracted endpoint schema is persisted.
    pub api_schema_path: String,
    /// Working directory of the generated server project.
    pub web_server_project_path: String,
}

impl PipelineConfig {
    pub fn new(
        code_template_path: String,
        exec_main_path: String,
        api_schema_path: String,
        web_server_project_path: String,
    ) -> (cfg: PipelineConfig)
        ensures
            cfg.code_template_path == code_template_path,
            cfg.exec_main_path == exec_main_path,
            cfg.api_schema_path == api_schema_path,
            cfg.web_server_project_path == web_server_project_path,
    {
        PipelineConfig {
            code_template_path,
            exec_main_path,
            api_schema_path,
            web_server_project_path,
        }
    }
}

/// A Unicode scalar value: any code point that a `char` can hold.
pub open spec fn is_unicode_scalar(n: int) -> bool {
    (0 <= n < 0xD800) || (0xE000 <= n <= 0x10FFFF)
}

/// Relies on char::from_u32: `Some` exactly for Unicode scalar values (no
/// surrogates, at most 0x10FFFF), and the returned character's code point
/// is the argument.
#[verifier::external_body]
pub(crate) fn char_from_u32(n: u32) -> (r: Option<char>)
    ensures
        match r {
            Some(c) => c as u32 == n && is_unicode_scalar(n as int),
            None => !is_unicode_scalar(n as int),
        },
{
    char::from_u32(n)
}

/// Relies on String::push: appends exactly one character.
#[verifier::external_body]
pub(crate) fn push_char(s: &mut String, c: char)
    ensures
        final(s)@ == old(s)@.push(c),
{
    s.push(c)
}

/// The characters of `s`, in order, as a vector.
pub fn chars_of(s: &str) -> (v: Vec<char>)
    ensures
        v@ == s@,
{
    let n: usize = s.unicode_len();
    let mut v: Vec<char> = Vec::new();
    let mut i: usize = 0;
    while i < n
        invariant
            n == s@.len(),
            i <= n,
            v@ == s@.take(i as int),
        decreases n - i,
    {
        v.push(s.get_char(i));
        i = i + 1;
        proof {
            assert(v@ =~= s@.take(i as int));
        }
    }
    proof {
        assert(v@ =~= s@);
    }
    v
}

/// Wraps a prompted-function's printed text and the caller's input into the
/// one system message the prompted-function service is sent.
pub fn extend_ai_function(ai_function_text: &str, func_input: &str) -> (msg: Message)
    ensures
        msg.role@ == "system"@,
        msg.content@ == "FUNCTION: "@ + ai_function_text@
            + "\n    INSTRUCTION: You are a function printer. You ONLY print the results of functions.\n    Nothing else. No commentary. Here is the input of the function: "@
            + func_input@ + ".\n    Print out what the function will return."@,
{
    let mut content: String = String::from_str("FUNCTION: ");
    content.append(ai_function_text);
    content.append(
        "\n    INSTRUCTION: You are a function printer. You ONLY print the results of functions.\n    Nothing else. No commentary. Here is the input of the function: ",
    );
    content.append(func_input);
    content.append(".\n    Print out what the function will return.");
    Message { role: String::from_str("system"), content }
}

} // verus!
