//! Prompt version records: what is stored for a version and which body a reader gets.
use vstd::prelude::*;

use crate::text::{signed_decimal, signed_decimal_text, trim, trim_seq};

verus! {

/// A stored prompt version.
pub struct PromptVersion {
    pub version_id: String,
    pub prompt_id: String,
    pub version_number: i32,
    pub content: String,
    pub variables: String,
    pub status: String,
    pub created_at: String,
    pub created_by: String,
    pub change_summary: Option<String>,
}

/// A variable a prompt template declares.
pub struct PromptVariable {
    pub name: String,
    pub var_type: String,
    pub default_value: Option<String>,
    pub required: bool,
}

/// Body of a request to record a new prompt version.
pub struct CreatePromptVersionRequest {
    pub prompt_id: String,
    pub content: String,
    pub variables: Vec<PromptVariable>,
    pub change_summary: Option<String>,
}

/// The body kept in the database for a prompt version: an employee's prompt body lives in the
/// employee's files, so its row keeps an empty body; other prompts keep theirs.
pub fn prompt_body_storage_value<'a>(is_employee_prompt: bool, content: &'a str) -> (r: &'a str)
    ensures
        is_employee_prompt ==> r@.len() == 0,
        !is_employee_prompt ==> r@ == content@,
{
    if is_employee_prompt {
        proof {
            reveal_strlit("");
        }
        ""
    } else {
        content
    }
}

/// The number of the next version of a prompt whose highest recorded version is `max_version`.
pub fn next_version_number(max_version: Option<i32>) -> (r: i32)
    requires
        max_version matches Some(m) ==> m < i32::MAX,
    ensures
        r == (match max_version {
            Some(m) => m + 1,
            None => 1,
        }),
{
    match max_version {
        Some(m) => m + 1,
        None => 1,
    }
}

/// Why a prompt id is refused (status 422).
#[derive(PartialEq, Eq, Structural, Debug, Clone, Copy)]
pub enum PromptIdError {
    /// "prompt_id is required"
    Required,
    /// "prompt_id must be a plain employee identifier"
    NotPlain,
}

impl PromptIdError {
    pub open spec fn status_spec(self) -> u16 {
        match self {
            PromptIdError::Required => 422,
            PromptIdError::NotPlain => 422,
        }
    }

    /// The HTTP status the refusal is answered with.
    pub fn status(&self) -> (r: u16)
        ensures
            r == self.status_spec(),
    {
        match self {
            PromptIdError::Required => 422,
            PromptIdError::NotPlain => 422,
        }
    }

    pub open spec fn message_spec(self) -> Seq<char> {
        match self {
            PromptIdError::Required => "prompt_id is required"@,
            PromptIdError::NotPlain => "prompt_id must be a plain employee identifier"@,
        }
    }

    /// The error text the API answers with.
    pub fn message(&self) -> (r: String)
        ensures
            r@ == self.message_spec(),
    {
        match self {
            PromptIdError::Required => String::from_str("prompt_id is required"),
            PromptIdError::NotPlain => String::from_str("prompt_id must be a plain employee identifier"),
        }
    }
}

/// A prompt id must be non-blank and a plain identifier (`is_plain` tells whether it is one).
pub fn validate_prompt_id(prompt_id: &str, is_plain: bool) -> (r: Result<(), PromptIdError>)
    ensures
        r == (if trim_seq(prompt_id@).len() == 0 {
            Err(PromptIdError::Required)
        } else if !is_plain {
            Err(PromptIdError::NotPlain)
        } else {
            Ok(())
        }),
{
    if trim(prompt_id).as_str().unicode_len() == 0 {
        Err(PromptIdError::Required)
    } else if !is_plain {
        Err(PromptIdError::NotPlain)
    } else {
        Ok(())
    }
}

/// The version a create request records: a draft by `system`, with the request's full body.
pub fn draft_prompt_version(
    req: &CreatePromptVersionRequest,
    version_id: String,
    version_number: i32,
    created_at: String,
    variables_json: String,
) -> (r: PromptVersion)
    ensures
        r.version_id == version_id,
        r.prompt_id@ == req.prompt_id@,
        r.version_number == version_number,
        r.content@ == req.content@,
        r.variables == variables_json,
        r.status@ == "DRAFT"@,
        r.created_at == created_at,
        r.created_by@ == "system"@,
        r.change_summary == req.change_summary,
{
    PromptVersion {
        version_id,
        prompt_id: req.prompt_id.clone(),
        version_number,
        content: req.content.clone(),
        variables: variables_json,
        status: String::from_str("DRAFT"),
        created_at,
        created_by: String::from_str("system"),
        change_summary: match &req.change_summary {
            Some(c) => Some(c.clone()),
            None => None,
        },
    }
}

/// The body a reader gets for a version: an employee prompt's version file when it can be
/// read, else the stored body.
pub fn hydrated_prompt_content(
    is_employee_prompt: bool,
    version_file: Option<String>,
    stored: String,
) -> (r: String)
    ensures
        r == (if is_employee_prompt && version_file is Some {
            version_file->Some_0
        } else {
            stored
        }),
{
    if is_employee_prompt {
        match version_file {
            Some(c) => c,
            None => stored,
        }
    } else {
        stored
    }
}


/// A file of an employee's prompt.
#[derive(PartialEq, Eq, Structural, Debug, Clone, Copy)]
pub enum PromptFile {
    /// The file of one version.
    Version,
    /// The prompt the employee currently runs with.
    Current,
    /// The number of the version the current prompt is.
    CurrentVersion,
}

/// What recording version `version_number` of an employee's prompt writes: the version's file,
/// and, when the version is published, the current prompt and the current version number.
pub open spec fn prompt_writes(version_number: i32, content: Seq<char>, publish_current: bool) -> Seq<
    (PromptFile, Seq<char>),
> {
    let version = seq![(PromptFile::Version, content)];
    if publish_current {
        version + seq![
            (PromptFile::Current, content),
            (PromptFile::CurrentVersion, signed_decimal(version_number as int)),
        ]
    } else {
        version
    }
}

pub open spec fn write_views(ws: Seq<(PromptFile, String)>) -> Seq<(PromptFile, Seq<char>)> {
    ws.map_values(|w: (PromptFile, String)| (w.0, w.1@))
}

pub fn employee_prompt_writes(version_number: i32, content: &str, publish_current: bool) -> (r: Vec<
    (PromptFile, String),
>)
    ensures
        write_views(r@) == prompt_writes(version_number, content@, publish_current),
{
    let mut writes: Vec<(PromptFile, String)> = Vec::new();
    writes.push((PromptFile::Version, String::from_str(content)));
    if publish_current {
        writes.push((PromptFile::Current, String::from_str(content)));
        writes.push((PromptFile::CurrentVersion, signed_decimal_text(version_number as i64)));
    }
    assert(write_views(writes@) =~= prompt_writes(version_number, content@, publish_current));
    writes
}

} // verus!
