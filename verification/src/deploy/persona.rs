//! Persona files of an agent (SOUL.md, IDENTITY.md, MEMORY.md) and the
//! check that a persona path stays inside the workspace. Reading the files
//! is left to the caller.

use vstd::prelude::*;
use crate::deploy::DeployError;
use crate::deploy::memory::{join_path, path_join};
use crate::text::{chars_of, push_str, split, split_chars};
use vstd::string::StringExecFns;

verus! {

/// The three persona files that define an agent's identity.
#[derive(Debug, Clone, PartialEq, Eq)]
pub struct PersonaFiles {
    /// SOUL.md: identity, purpose, values.
    pub soul: Option<String>,
    /// IDENTITY.md: context, background, knowledge.
    pub identity: Option<String>,
    /// MEMORY.md: mutable working memory.
    pub memory: Option<String>,
}

/// What the persona path check answers: `None` for a safe path, else the
/// reason. The path must be non-empty, have no `..` component, and be
/// relative.
pub open spec fn persona_path_problem(p: Seq<char>) -> Option<Seq<char>> {
    if p.len() == 0 {
        Some("persona path must not be empty"@)
    } else if split(p, '/').contains(".."@) {
        Some("persona path '"@ + p + "' contains path traversal component '..'"@)
    } else if p[0] == '/' {
        Some("persona path '"@ + p + "' must be relative, not absolute"@)
    } else {
        None
    }
}

/// Validate that a persona path is safe: no `..` component, not absolute.
#[verifier::loop_isolation(false)]
pub fn validate_persona_path(persona_path: &str) -> (r: Result<(), DeployError>)
    ensures
        match persona_path_problem(persona_path@) {
            None => r is Ok,
            Some(m) => r is Err && r->Err_0 is PersonaLoadFailed && r->Err_0->PersonaLoadFailed_0@ == m,
        },
{
    let v = chars_of(persona_path);
    if v.len() == 0 {
        return Err(DeployError::PersonaLoadFailed(String::from_str("persona path must not be empty")));
    }
    let parts = split_chars(v.as_slice(), '/');
    let ghost ps = parts@.map_values(|x: Vec<char>| x@);
    assert(ps == split(persona_path@, '/'));
    proof {
        reveal_strlit("..");
    }
    for i in 0..parts.len()
        invariant
            ps == parts@.map_values(|x: Vec<char>| x@),
            forall|j: int| 0 <= j < i ==> ps[j] != ".."@,
    {
        let part = &parts[i];
        proof {
            reveal_strlit("..");
        }
        assert(ps[i as int] == part@);
        if part.len() == 2 && part[0] == '.' && part[1] == '.' {
            assert(ps[i as int] =~= ".."@);
            assert(ps.contains(".."@));
            let mut m = String::new();
            push_str(&mut m, "persona path '");
            push_str(&mut m, persona_path);
            push_str(&mut m, "' contains path traversal component '..'");
            return Err(DeployError::PersonaLoadFailed(m));
        }
        assert(ps[i as int] != ".."@);
    }
    assert(!ps.contains(".."@));
    if v[0] == '/' {
        let mut m = String::new();
        push_str(&mut m, "persona path '");
        push_str(&mut m, persona_path);
        push_str(&mut m, "' must be relative, not absolute");
        return Err(DeployError::PersonaLoadFailed(m));
    }
    Ok(())
}

/// The view of an optional text.
pub open spec fn opt_view(o: Option<String>) -> Option<Seq<char>> {
    match o {
        Some(s) => Some(s@),
        None => None,
    }
}

/// What reading one persona file gave.
#[derive(Debug, Clone, PartialEq, Eq)]
pub enum FileRead {
    /// The file does not exist.
    Missing,
    /// The file's content.
    Content(String),
    /// Reading failed, with the error's text.
    Failed(String),
}

/// The view of a file read.
pub enum ReadView {
    Missing,
    Content(Seq<char>),
    Failed(Seq<char>),
}

pub open spec fn read_view(r: FileRead) -> ReadView {
    match r {
        FileRead::Missing => ReadView::Missing,
        FileRead::Content(c) => ReadView::Content(c@),
        FileRead::Failed(e) => ReadView::Failed(e@),
    }
}

/// A required persona file: its content, or why it cannot be had.
pub open spec fn required_file(dir: Seq<char>, file: Seq<char>, r: ReadView) -> Result<Seq<char>, Seq<char>> {
    let path = path_join(dir, file);
    match r {
        ReadView::Missing => Err("required persona file "@ + file + " not found at '"@ + path + "'"@),
        ReadView::Failed(e) => Err("failed to read "@ + file + " at '"@ + path + "': "@ + e),
        ReadView::Content(c) => Ok(c),
    }
}

/// What loading a persona gives, from the workspace root, the persona path
/// and what reading its directory and files gave: the path must be safe and
/// the directory exist; SOUL.md and IDENTITY.md are required; a missing
/// MEMORY.md counts as empty.
pub open spec fn persona_outcome(
    root: Seq<char>,
    persona_path: Seq<char>,
    dir_exists: bool,
    soul: ReadView,
    identity: ReadView,
    memory: ReadView,
) -> Result<(Seq<char>, Seq<char>, Seq<char>), Seq<char>> {
    match persona_path_problem(persona_path) {
        Some(m) => Err(m),
        None => {
            let dir = path_join(root, persona_path);
            if !dir_exists {
                Err("persona directory '"@ + dir + "' does not exist"@)
            } else {
                match required_file(dir, "SOUL.md"@, soul) {
                    Err(m) => Err(m),
                    Ok(s) => match required_file(dir, "IDENTITY.md"@, identity) {
                        Err(m) => Err(m),
                        Ok(i) => match memory {
                            ReadView::Missing => Ok((s, i, Seq::empty())),
                            ReadView::Failed(e) => Err("failed to read MEMORY.md at '"@ + path_join(dir, "MEMORY.md"@)
                                + "': "@ + e),
                            ReadView::Content(m) => Ok((s, i, m)),
                        },
                    },
                }
            }
        },
    }
}

fn required_persona_file(dir: &str, file: &str, r: FileRead) -> (o: Result<String, String>)
    ensures
        match o {
            Ok(c) => required_file(dir@, file@, read_view(r)) == Ok::<Seq<char>, Seq<char>>(c@),
            Err(m) => required_file(dir@, file@, read_view(r)) == Err::<Seq<char>, Seq<char>>(m@),
        },
{
    let path = join_path(dir, file);
    match r {
        FileRead::Missing => {
            let mut m = String::from_str("required persona file ");
            push_str(&mut m, file);
            push_str(&mut m, " not found at '");
            push_str(&mut m, path.as_str());
            push_str(&mut m, "'");
            Err(m)
        },
        FileRead::Failed(e) => {
            let mut m = String::from_str("failed to read ");
            push_str(&mut m, file);
            push_str(&mut m, " at '");
            push_str(&mut m, path.as_str());
            push_str(&mut m, "': ");
            push_str(&mut m, e.as_str());
            Err(m)
        },
        FileRead::Content(c) => Ok(c),
    }
}

/// Load a persona from what reading its directory and files gave (the
/// caller reads `<root>/<persona_path>/{SOUL,IDENTITY,MEMORY}.md`, and
/// creates an empty MEMORY.md when it is missing).
pub fn persona_from_reads(
    workspace_root: &str,
    persona_path: &str,
    dir_exists: bool,
    soul: FileRead,
    identity: FileRead,
    memory: FileRead,
) -> (r: Result<PersonaFiles, DeployError>)
    ensures
        match persona_outcome(workspace_root@, persona_path@, dir_exists, read_view(soul), read_view(identity), read_view(memory)) {
            Ok((s, i, m)) => r matches Ok(p) && opt_view(p.soul) == Some(s) && opt_view(p.identity) == Some(i) && opt_view(
                p.memory,
            ) == Some(m),
            Err(e) => r matches Err(DeployError::PersonaLoadFailed(x)) && x@ == e,
        },
{
    match validate_persona_path(persona_path) {
        Ok(()) => {},
        Err(e) => return Err(e),
    }
    let dir = join_path(workspace_root, persona_path);
    if !dir_exists {
        let mut m = String::from_str("persona directory '");
        push_str(&mut m, dir.as_str());
        push_str(&mut m, "' does not exist");
        return Err(DeployError::PersonaLoadFailed(m));
    }
    let s = match required_persona_file(dir.as_str(), "SOUL.md", soul) {
        Ok(c) => c,
        Err(m) => return Err(DeployError::PersonaLoadFailed(m)),
    };
    let i = match required_persona_file(dir.as_str(), "IDENTITY.md", identity) {
        Ok(c) => c,
        Err(m) => return Err(DeployError::PersonaLoadFailed(m)),
    };
    let m = match memory {
        FileRead::Missing => {
            let e = String::new();
            assert(e@ =~= Seq::<char>::empty());
            e
        },
        FileRead::Content(c) => c,
        FileRead::Failed(e) => {
            let path = join_path(dir.as_str(), "MEMORY.md");
            let mut m = String::from_str("failed to read MEMORY.md at '");
            push_str(&mut m, path.as_str());
            push_str(&mut m, "': ");
            push_str(&mut m, e.as_str());
            return Err(DeployError::PersonaLoadFailed(m));
        },
    };
    Ok(PersonaFiles { soul: Some(s), identity: Some(i), memory: Some(m) })
}

} // verus!
