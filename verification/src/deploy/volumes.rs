//! The shell scripts that fill a topology's data volumes from a throwaway
//! container: every file is written with `printf`, its content quoted for
//! the shell, and each script ends with `echo done`.

use vstd::prelude::*;
use crate::text::{chars_of, push_char, push_str};
use vstd::string::StrSliceExecFns;

verus! {

/// A character inside single quotes: a quote ends the quoting, is escaped,
/// and opens it again.
pub open spec fn quoted_char(c: char) -> Seq<char> {
    if c == '\'' {
        "'\\''"@
    } else {
        seq![c]
    }
}

/// Text to stand inside single quotes in a shell command.
pub open spec fn shell_quoted(s: Seq<char>) -> Seq<char>
    decreases s.len(),
{
    if s.len() == 0 {
        Seq::empty()
    } else {
        shell_quoted(s.drop_last()) + quoted_char(s.last())
    }
}

/// Append `s` quoted for single quotes.
pub fn push_shell_quoted(out: &mut String, s: &str)
    ensures
        final(out)@ == old(out)@ + shell_quoted(s@),
{
    let v = chars_of(s);
    let ghost start = out@;
    for i in 0..v.len()
        invariant
            v@ == s@,
            out@ == start + shell_quoted(v@.take(i as int)),
    {
        assert(v@.take(i + 1).drop_last() =~= v@.take(i as int));
        if v[i] == '\'' {
            push_str(out, "'\\''");
        } else {
            push_char(out, v[i]);
        }
        assert(out@ =~= start + shell_quoted(v@.take(i + 1)));
    }
    assert(v@.take(v@.len() as int) =~= v@);
}

/// The command that writes `content` to `path`: `printf '%s' '<content>' > <path> && `.
pub open spec fn write_cmd(content: Seq<char>, path: Seq<char>) -> Seq<char> {
    "printf '%s' '"@ + shell_quoted(content) + "' > "@ + path + " && "@
}

fn push_write_cmd(out: &mut String, content: &str, path: &str)
    ensures
        final(out)@ == old(out)@ + write_cmd(content@, path@),
{
    let ghost start = out@;
    push_str(out, "printf '%s' '");
    push_shell_quoted(out, content);
    push_str(out, "' > ");
    push_str(out, path);
    push_str(out, " && ");
    assert(out@ =~= start + write_cmd(content@, path@));
}

/// `<dir>/<name>/<file>` for the volume paths.
pub open spec fn volume_path(dir: Seq<char>, name: Seq<char>, file: Seq<char>) -> Seq<char> {
    dir + "/"@ + name + "/"@ + file
}

fn path_of(dir: &str, name: &str, file: &str) -> (p: String)
    ensures
        p@ == volume_path(dir@, name@, file@),
{
    let mut p = String::new();
    push_str(&mut p, dir);
    push_str(&mut p, "/");
    push_str(&mut p, name);
    push_str(&mut p, "/");
    push_str(&mut p, file);
    p
}

/// The context of one stream: its directory, then its CONTEXT.md.
pub open spec fn context_entry(stream: Seq<char>, content: Seq<char>) -> Seq<char> {
    "mkdir -p /context/"@ + stream + " && "@ + write_cmd(content, volume_path("/context"@, stream, "CONTEXT.md"@))
}

/// The context entries of the streams in order.
pub open spec fn context_entries(e: Seq<(Seq<char>, Seq<char>)>) -> Seq<char>
    decreases e.len(),
{
    if e.len() == 0 {
        Seq::empty()
    } else {
        context_entries(e.drop_last()) + context_entry(e.last().0, e.last().1)
    }
}

/// The views of `(stream, content)` pairs.
pub open spec fn entry_views(e: Seq<(String, String)>) -> Seq<(Seq<char>, Seq<char>)> {
    e.map_values(|p: (String, String)| (p.0@, p.1@))
}

/// The script that writes each stream's CONTEXT.md into the context volume,
/// mounted at `/context`.
pub fn context_script(entries: &[(String, String)]) -> (s: String)
    ensures
        s@ == context_entries(entry_views(entries@)) + "echo done"@,
{
    let mut s = String::new();
    let ghost ev = entry_views(entries@);
    for i in 0..entries.len()
        invariant
            ev == entry_views(entries@),
            s@ == context_entries(ev.take(i as int)),
    {
        assert(ev.take(i + 1).drop_last() =~= ev.take(i as int));
        let (stream, content) = (&entries[i].0, &entries[i].1);
        let ghost before = s@;
        push_str(&mut s, "mkdir -p /context/");
        push_str(&mut s, stream.as_str());
        push_str(&mut s, " && ");
        let p = path_of("/context", stream.as_str(), "CONTEXT.md");
        push_write_cmd(&mut s, content.as_str(), p.as_str());
        assert(s@ =~= before + context_entry(stream@, content@));
    }
    assert(ev.take(ev.len() as int) =~= ev);
    push_str(&mut s, "echo done");
    s
}

/// What an agent's persona directory holds: SOUL.md, IDENTITY.md and
/// MEMORY.md, each when present.
pub struct PersonaSource {
    pub agent: String,
    pub soul: Option<String>,
    pub identity: Option<String>,
    pub memory: Option<String>,
}

/// A write of an optional file: nothing when it is absent.
pub open spec fn opt_write(content: Option<String>, path: Seq<char>) -> Seq<char> {
    match content {
        Some(c) => write_cmd(c@, path),
        None => Seq::empty(),
    }
}

/// The persona files of one agent: SOUL.md and IDENTITY.md are written when
/// present; MEMORY.md is only written (or created empty) when the volume
/// does not hold one, so the agent's own changes are kept.
pub open spec fn persona_entry(p: PersonaSource) -> Seq<char> {
    let memory = volume_path("/personas"@, p.agent@, "MEMORY.md"@);
    "mkdir -p /personas/"@ + p.agent@ + " && "@ + opt_write(p.soul, volume_path("/personas"@, p.agent@, "SOUL.md"@))
        + opt_write(p.identity, volume_path("/personas"@, p.agent@, "IDENTITY.md"@)) + "[ -f "@ + memory + " ] || "@
        + match p.memory {
        Some(c) => write_cmd(c@, memory),
        None => "touch "@ + memory + " && "@,
    }
}

/// The persona entries of the agents in order.
pub open spec fn persona_entries(s: Seq<PersonaSource>) -> Seq<char>
    decreases s.len(),
{
    if s.len() == 0 {
        Seq::empty()
    } else {
        persona_entries(s.drop_last()) + persona_entry(s.last())
    }
}

fn push_opt_write(out: &mut String, content: &Option<String>, dir: &str, name: &str, file: &str)
    ensures
        final(out)@ == old(out)@ + opt_write(*content, volume_path(dir@, name@, file@)),
{
    match content {
        Some(c) => {
            let p = path_of(dir, name, file);
            push_write_cmd(out, c.as_str(), p.as_str());
        },
        None => {
            assert(old(out)@ + Seq::<char>::empty() =~= old(out)@);
        },
    }
}

fn push_persona_entry(out: &mut String, src: &PersonaSource)
    ensures
        final(out)@ == old(out)@ + persona_entry(*src),
{
    let ghost before = out@;
    let a = src.agent.as_str();
    push_str(out, "mkdir -p /personas/");
    push_str(out, a);
    push_str(out, " && ");
    push_opt_write(out, &src.soul, "/personas", a, "SOUL.md");
    push_opt_write(out, &src.identity, "/personas", a, "IDENTITY.md");
    let memory = path_of("/personas", a, "MEMORY.md");
    push_str(out, "[ -f ");
    push_str(out, memory.as_str());
    push_str(out, " ] || ");
    match &src.memory {
        Some(c) => push_write_cmd(out, c.as_str(), memory.as_str()),
        None => {
            push_str(out, "touch ");
            push_str(out, memory.as_str());
            push_str(out, " && ");
        },
    }
    assert(out@ =~= before + persona_entry(*src));
}

/// The script that copies each agent's persona files into the personas
/// volume, mounted at `/personas`.
pub fn personas_script(sources: &[PersonaSource]) -> (s: String)
    ensures
        s@ == persona_entries(sources@) + "echo done"@,
{
    let mut s = String::new();
    for i in 0..sources.len()
        invariant
            s@ == persona_entries(sources@.take(i as int)),
    {
        assert(sources@.take(i + 1).drop_last() =~= sources@.take(i as int));
        push_persona_entry(&mut s, &sources[i]);
    }
    assert(sources@.take(sources@.len() as int) =~= sources@);
    push_str(&mut s, "echo done");
    s
}

/// A write of a generated file: nothing when it came out empty.
pub open spec fn nonempty_write(content: Seq<char>, path: Seq<char>) -> Seq<char> {
    if content.len() > 0 {
        write_cmd(content, path)
    } else {
        Seq::empty()
    }
}

/// The script that writes the capabilities and the CLI reference into the
/// platform volume, mounted at `/etc/wh`; an empty text is left out.
pub fn platform_script(capabilities_json: &str, cli_reference: &str) -> (s: String)
    ensures
        s@ == "mkdir -p /etc/wh && "@ + nonempty_write(capabilities_json@, "/etc/wh/capabilities.json"@)
            + nonempty_write(cli_reference@, "/etc/wh/cli-reference.md"@) + "echo done"@,
{
    let mut s = String::new();
    push_str(&mut s, "mkdir -p /etc/wh && ");
    let ghost a = s@;
    if capabilities_json.unicode_len() > 0 {
        push_write_cmd(&mut s, capabilities_json, "/etc/wh/capabilities.json");
    }
    assert(s@ =~= a + nonempty_write(capabilities_json@, "/etc/wh/capabilities.json"@));
    let ghost b = s@;
    if cli_reference.unicode_len() > 0 {
        push_write_cmd(&mut s, cli_reference, "/etc/wh/cli-reference.md");
    }
    assert(s@ =~= b + nonempty_write(cli_reference@, "/etc/wh/cli-reference.md"@));
    push_str(&mut s, "echo done");
    s
}

} // verus!
