//! Naming of agent home directories and of delivered attachments, and the
//! attachment manifest a worker is shown.

use vstd::prelude::*;
use crate::error::KernelError;
use crate::paths::{is_piece_of, leads_path, path_strip_prefix, portable_path, rest_after};
use crate::orchestrator::{DeliveredAttachmentContext, Orchestrator};
use crate::sairgent::single_line;
use crate::text::{
    chars_of, concat2, has_prefix, i64_text, int_text, nat_text, owned, str_equals,
    str_starts_with, string_of, take_chars, take_chars_vec, trim, trim_char, trim_char_chars,
    trim_chars, u64_text,
};
use crate::workspace::{char_is_control, is_control};

verus! {

/// Longest directory name taken from an agent's name, in characters.
pub const MAX_AGENT_DIR_NAME_CHARS: usize = 64;

/// A character that may stand in a directory name: ASCII letters and
/// digits, space and `-`.
pub open spec fn dir_name_char_ok(c: char) -> bool {
    ('a' <= c && c <= 'z') || ('A' <= c && c <= 'Z') || ('0' <= c && c <= '9') || c == ' ' || c
        == '-'
}

/// The directory name an agent's name gives: its first 64 characters, every
/// other character replaced by `_`, then trimmed of whitespace and of `_`.
pub open spec fn sanitized_dir_name(name: Seq<char>) -> Seq<char> {
    trim_char(
        trim(
            take_chars(name, MAX_AGENT_DIR_NAME_CHARS as int).map_values(
                |c: char|
                    if dir_name_char_ok(c) {
                        c
                    } else {
                        '_'
                    },
            ),
        ),
        '_',
    )
}

pub open spec fn empty_dir_name_message(name: Seq<char>) -> Seq<char> {
    "Agent name '"@ + name + "' produces an empty sanitized directory name"@
}

/// The characters of a name that are neither control characters nor path
/// separators; those become `_`.
pub open spec fn filename_char(c: char) -> char {
    if c == '/' || c == '\\' || c == ':' || c == '\0' || is_control(c) {
        '_'
    } else {
        c
    }
}

/// A delivered attachment's file name: separators and control characters
/// replaced by `_`, whitespace runs collapsed to single spaces, then trimmed
/// of whitespace and of `.`; `attachment` when nothing is left.
pub open spec fn sanitized_attachment_name(name: Seq<char>) -> Seq<char> {
    let t = trim_char(trim(single_line(name.map_values(|c: char| filename_char(c)))), '.');
    if t.len() == 0 {
        "attachment"@
    } else {
        t
    }
}

/// One line of the attachment manifest.
pub open spec fn attachment_line(index: int, a: DeliveredAttachmentContext) -> Seq<char> {
    nat_text((index + 1) as nat) + ". "@ + a.display_name@ + " ["@ + a.source_kind@ + "] path="@
        + a.workspace_ref@ + " source="@ + a.original_path@ + " size="@ + int_text(
        a.size_bytes as int,
    ) + " content_type="@ + a.content_type@
}

/// The manifest lines of the first `n` attachments, joined by newlines.
pub open spec fn attachment_manifest(list: Seq<DeliveredAttachmentContext>, n: int) -> Seq<char>
    decreases n,
{
    if n <= 0 {
        Seq::empty()
    } else if n == 1 {
        attachment_line(0, list[0])
    } else {
        attachment_manifest(list, n - 1) + "\n"@ + attachment_line(n - 1, list[n - 1])
    }
}

/// A worker payload with the attachment manifest appended, when there are
/// attachments.
pub open spec fn payload_with_attachments(
    payload: Seq<char>,
    list: Seq<DeliveredAttachmentContext>,
) -> Seq<char> {
    if list.len() == 0 {
        payload
    } else {
        payload
            + "\n\nATTACHMENTS PROVIDED:\nReview the attached files before deciding whether delegation is necessary.\nUse read_agent_file with the workspace-relative paths below when you need the file contents.\n"@
            + attachment_manifest(list, list.len() as int)
    }
}

fn dir_char(c: char) -> (r: char)
    ensures
        r == (if dir_name_char_ok(c) {
            c
        } else {
            '_'
        }),
{
    if ('a' <= c && c <= 'z') || ('A' <= c && c <= 'Z') || ('0' <= c && c <= '9') || c == ' ' || c
        == '-' {
        c
    } else {
        '_'
    }
}

fn file_char(c: char) -> (r: char)
    ensures
        r == filename_char(c),
{
    if c == '/' || c == '\\' || c == ':' || c == '\0' || char_is_control(c) {
        '_'
    } else {
        c
    }
}

/// Where an agent's home directory is taken from.
pub enum DirectoryPlan {
    /// Move the directory kept under the agent's id to its preferred name.
    MigrateLegacy,
    /// Use the directory under the preferred name.
    UsePreferred,
    /// The preferred name is bound to another agent: use the conflict-safe name.
    UseFallback,
}

pub open spec fn directory_plan_spec(
    legacy_exists: bool,
    preferred_exists: bool,
    preferred_marker: Option<Seq<char>>,
    agent_id: Seq<char>,
) -> DirectoryPlan {
    if legacy_exists && !preferred_exists {
        DirectoryPlan::MigrateLegacy
    } else if preferred_exists && (preferred_marker matches Some(m) && m != agent_id) {
        DirectoryPlan::UseFallback
    } else {
        DirectoryPlan::UsePreferred
    }
}

/// Chooses an agent's home directory from what is on disk: a directory
/// under the agent's id moves to the preferred name when that is free; a
/// preferred directory whose `.id` marker names another agent is passed
/// over for the conflict-safe name.
pub fn plan_agent_directory(
    legacy_exists: bool,
    preferred_exists: bool,
    preferred_marker: Option<&str>,
    agent_id: &str,
) -> (r: DirectoryPlan)
    ensures
        r == directory_plan_spec(
            legacy_exists,
            preferred_exists,
            crate::orchestrator::opt_view(preferred_marker),
            agent_id@,
        ),
{
    if legacy_exists && !preferred_exists {
        DirectoryPlan::MigrateLegacy
    } else {
        let conflict = match preferred_marker {
            Some(m) => !str_equals(m, agent_id),
            None => false,
        };
        if preferred_exists && conflict {
            DirectoryPlan::UseFallback
        } else {
            DirectoryPlan::UsePreferred
        }
    }
}

/// Whether a directory's `.id` marker (already trimmed) lets `agent_id`
/// use it: no marker, or the agent's own id.
pub fn directory_binding_ok(marker: Option<&str>, agent_id: &str) -> (r: bool)
    ensures
        r == match marker {
            Some(m) => m@ == agent_id@,
            None => true,
        },
{
    match marker {
        Some(m) => str_equals(m, agent_id),
        None => true,
    }
}

/// Whether a directory named `entry_name` under the agent home root belongs
/// to an agent whose sanitized name is `dir_name`: the name itself or a
/// conflict-safe `dir_name-…` variant.
pub fn is_agent_directory_entry(entry_name: &str, dir_name: &str) -> (r: bool)
    ensures
        r == (entry_name@ == dir_name@ || has_prefix(entry_name@, dir_name@ + "-"@)),
{
    let prefix = concat2(dir_name, "-");
    proof {
        reveal_strlit("-");
    }
    str_equals(entry_name, dir_name) || str_starts_with(entry_name, prefix.as_str())
}

impl Orchestrator {
    /// The directory name for an agent, or an error when nothing usable is left.
    pub fn sanitize_agent_directory_name(agent_name: &str) -> (r: Result<String, KernelError>)
        ensures
            sanitized_dir_name(agent_name@).len() == 0 ==> (r matches Err(
                KernelError::Internal(m),
            ) && m@ == empty_dir_name_message(agent_name@)),
            sanitized_dir_name(agent_name@).len() > 0 ==> (r matches Ok(s) && s@
                == sanitized_dir_name(agent_name@)),
    {
        let v = chars_of(agent_name);
        let head = take_chars_vec(&v, MAX_AGENT_DIR_NAME_CHARS);
        let mut mapped: Vec<char> = Vec::new();
        let mut i: usize = 0;
        while i < head.len()
            invariant
                i <= head.len(),
                mapped@ == head@.subrange(0, i as int).map_values(
                    |c: char|
                        if dir_name_char_ok(c) {
                            c
                        } else {
                            '_'
                        },
                ),
            decreases head.len() - i,
        {
            mapped.push(dir_char(head[i]));
            i = i + 1;
            proof {
                assert(mapped@ =~= head@.subrange(0, i as int).map_values(
                    |c: char|
                        if dir_name_char_ok(c) {
                            c
                        } else {
                            '_'
                        },
                ));
            }
        }
        assert(head@.subrange(0, head@.len() as int) =~= head@);
        let t = trim_chars(&mapped);
        let s = trim_char_chars(&t, '_');
        if s.len() == 0 {
            let mut m = owned("Agent name '");
            m.append(agent_name);
            m.append("' produces an empty sanitized directory name");
            return Err(KernelError::Internal(m));
        }
        Ok(string_of(&s))
    }

    /// The directory name used when the preferred one belongs to another
    /// agent: the sanitized name, `-`, and the first 8 characters of the id.
    pub fn conflict_safe_agent_directory_name(agent_name: &str, agent_id: &str) -> (r: Result<
        String,
        KernelError,
    >)
        ensures
            sanitized_dir_name(agent_name@).len() == 0 ==> (r matches Err(
                KernelError::Internal(m),
            ) && m@ == empty_dir_name_message(agent_name@)),
            sanitized_dir_name(agent_name@).len() > 0 ==> (r matches Ok(s) && s@
                == sanitized_dir_name(agent_name@) + "-"@ + take_chars(agent_id@, 8)),
    {
        let dir_name = Self::sanitize_agent_directory_name(agent_name)?;
        let v = chars_of(agent_id);
        let short = take_chars_vec(&v, 8);
        let short_id = string_of(&short);
        let mut r = dir_name;
        r.append("-");
        r.append(short_id.as_str());
        Ok(r)
    }

    /// The file name an attachment is delivered under.
    pub fn sanitize_attachment_filename(name: &str) -> (r: String)
        ensures
            r@ == sanitized_attachment_name(name@),
    {
        let v = chars_of(name);
        let mut mapped: Vec<char> = Vec::new();
        let mut i: usize = 0;
        while i < v.len()
            invariant
                i <= v.len(),
                mapped@ == v@.subrange(0, i as int).map_values(|c: char| filename_char(c)),
            decreases v.len() - i,
        {
            mapped.push(file_char(v[i]));
            i = i + 1;
            proof {
                assert(mapped@ =~= v@.subrange(0, i as int).map_values(|c: char| filename_char(c)));
            }
        }
        assert(v@.subrange(0, v@.len() as int) =~= v@);
        let joined_text = string_of(&mapped);
        let single = Self::normalize_single_line(joined_text.as_str());
        let sv = chars_of(single.as_str());
        let t = trim_chars(&sv);
        let u = trim_char_chars(&t, '.');
        if u.len() == 0 {
            owned("attachment")
        } else {
            string_of(&u)
        }
    }

    /// The worker payload with a numbered manifest of the delivered
    /// attachments appended, so the worker reads them before delegating.
    pub fn render_attachment_context(
        payload: &str,
        attachments: &Vec<DeliveredAttachmentContext>,
    ) -> (r: String)
        ensures
            r@ == payload_with_attachments(payload@, attachments@),
    {
        if attachments.len() == 0 {
            return owned(payload);
        }
        let mut manifest = String::new();
        let mut i: usize = 0;
        while i < attachments.len()
            invariant
                i <= attachments.len(),
                manifest@ == attachment_manifest(attachments@, i as int),
            decreases attachments.len() - i,
        {
            if i > 0 {
                manifest.append("\n");
            }
            let a = &attachments[i];
            let n = u64_text((i + 1) as u64);
            manifest.append(n.as_str());
            manifest.append(". ");
            manifest.append(a.display_name.as_str());
            manifest.append(" [");
            manifest.append(a.source_kind.as_str());
            manifest.append("] path=");
            manifest.append(a.workspace_ref.as_str());
            manifest.append(" source=");
            manifest.append(a.original_path.as_str());
            manifest.append(" size=");
            manifest.append(i64_text(a.size_bytes).as_str());
            manifest.append(" content_type=");
            manifest.append(a.content_type.as_str());
            proof {
                reveal_strlit("\n");
                if i == 0 {
                    assert(manifest@ =~= attachment_line(0, attachments@[0]));
                } else {
                    assert(manifest@ =~= attachment_manifest(attachments@, i as int) + "\n"@
                        + attachment_line(i as int, attachments@[i as int]));
                }
            }
            i = i + 1;
        }
        let mut r = owned(payload);
        r.append(
            "\n\nATTACHMENTS PROVIDED:\nReview the attached files before deciding whether delegation is necessary.\nUse read_agent_file with the workspace-relative paths below when you need the file contents.\n",
        );
        r.append(manifest.as_str());
        r
    }
}

/// How an attachment reaches a worker.
pub enum AttachmentDelivery {
    /// It already lies in the agent's home and belongs to the agent: the
    /// worker reads it where it is.
    Referenced,
    /// It is copied into the agent's context directory.
    Copied,
}

/// How an attachment is delivered: in place when it lies inside the agent's
/// home and is not another agent's artifact, by copy otherwise.
pub fn attachment_delivery(inside_agent_root: bool, source_owner: Option<&str>, agent_id: &str) -> (r:
    AttachmentDelivery)
    ensures
        r == (if inside_agent_root && match source_owner {
            Some(o) => o@ == agent_id@,
            None => true,
        } {
            AttachmentDelivery::Referenced
        } else {
            AttachmentDelivery::Copied
        }),
{
    let own = match source_owner {
        Some(o) => str_equals(o, agent_id),
        None => true,
    };
    if inside_agent_root && own {
        AttachmentDelivery::Referenced
    } else {
        AttachmentDelivery::Copied
    }
}

/// The name a copied attachment gets in the context directory: its id, two
/// underscores, and its sanitized file name (`attachment` when the source
/// has no usable file name).
pub fn copied_attachment_name(attachment_id: &str, file_name: Option<&str>) -> (r: String)
    ensures
        r@ == attachment_id@ + "__"@ + match file_name {
            Some(n) => sanitized_attachment_name(n@),
            None => "attachment"@,
        },
{
    let name = match file_name {
        Some(n) => Orchestrator::sanitize_attachment_filename(n),
        None => owned("attachment"),
    };
    let mut r = owned(attachment_id);
    r.append("__");
    r.append(name.as_str());
    r
}

/// A path inside an agent's workspace, relative to the workspace root; a
/// path outside the workspace is refused.
pub fn relative_workspace_ref(agent_root: &str, path: &str) -> (r: Result<String, KernelError>)
    ensures
        match r {
            Ok(rest) => is_piece_of(rest@, path@),
            Err(KernelError::Internal(m)) => m@ == "Path '"@ + path@ + "' is outside agent workspace '"@
                + agent_root@ + "'"@,
            Err(_) => false,
        },
        path@ == agent_root@ ==> (r matches Ok(rest) && rest@.len() == 0),
        portable_path(agent_root@) && portable_path(path@) ==> (r is Ok <==> leads_path(
            agent_root@,
            path@,
        )),
        portable_path(agent_root@) && portable_path(path@) ==> (r matches Ok(rest) ==> rest@
            == rest_after(agent_root@, path@)),
{
    match path_strip_prefix(path, agent_root) {
        Some(rest) => Ok(rest),
        None => {
            let mut m = owned("Path '");
            m.append(path);
            m.append("' is outside agent workspace '");
            m.append(agent_root);
            m.append("'");
            Err(KernelError::Internal(m))
        },
    }
}

} // verus!
