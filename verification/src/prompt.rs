//! Texts the assistant composes: the system prompt, the summary of a
//! conversation turn kept as a memory, and home-directory expansion of paths.
use vstd::prelude::*;
use crate::text::{chars_of, concat, concat3, string_from_range};

verus! {

/// The system prompt: who the assistant is, the tools it has, and the
/// recalled memory context on a line of its own when there is any.
pub open spec fn system_prompt(tool_names: Seq<char>, memory_ctx: Seq<char>) -> Seq<char> {
    let base = "You are ferroclaw, a local-first AI assistant. You have access to these tools: "@
        + tool_names + ". Use them to help the user."@;
    if memory_ctx.len() == 0 {
        base
    } else {
        base + "\n"@ + memory_ctx
    }
}

/// Builds the system prompt.
pub fn build_system_prompt(tool_names: &str, memory_ctx: &str) -> (res: String)
    ensures
        res@ == system_prompt(tool_names@, memory_ctx@),
{
    let mut prompt = concat3(
        "You are ferroclaw, a local-first AI assistant. You have access to these tools: ",
        tool_names,
        ". Use them to help the user.",
    );
    if !memory_ctx.is_empty() {
        prompt.append("\n");
        prompt.append(memory_ctx);
    }
    prompt
}

/// The summary of one turn stored as a memory: `User: <message>`, a newline
/// and `Assistant: <reply>`.
pub fn conversation_summary(message: &str, reply: &str) -> (res: String)
    ensures
        res@ == "User: "@ + message@ + "\nAssistant: "@ + reply@,
{
    let head = concat3("User: ", message, "\nAssistant: ");
    concat(head.as_str(), reply)
}

/// A path with a leading `~/` expanded: the home directory (`.` when it is
/// unknown) followed by the rest of the path from its `/`; other paths are
/// unchanged.
pub open spec fn expanded(path: Seq<char>, home: Option<Seq<char>>) -> Seq<char> {
    if "~/"@.is_prefix_of(path) {
        let h = match home {
            Some(h) => h,
            None => "."@,
        };
        h + path.subrange(1, path.len() as int)
    } else {
        path
    }
}

/// Expands a leading `~/` to the home directory `home` (the value of `HOME`,
/// `None` when it is not set).
pub fn expand_tilde(path: &str, home: Option<&str>) -> (res: String)
    ensures
        res@ == expanded(path@, match home {
            Some(h) => Some(h@),
            None => None,
        }),
{
    proof {
        reveal_strlit("~/");
    }
    let cs = chars_of(path);
    if cs.len() >= 2 && cs[0] == '~' && cs[1] == '/' {
        assert("~/"@.is_prefix_of(path@)) by {
            assert(path@.subrange(0, 2) =~= "~/"@);
        }
        let rest = string_from_range(&cs, 1, cs.len());
        let base = match home {
            Some(h) => h,
            None => ".",
        };
        concat(base, rest.as_str())
    } else {
        assert(!"~/"@.is_prefix_of(path@)) by {
            if "~/"@.is_prefix_of(path@) {
                assert(path@.subrange(0, 2)[0] == path@[0]);
                assert(path@.subrange(0, 2)[1] == path@[1]);
            }
        }
        path.to_owned()
    }
}

/// The system prompt names the tools right after its fixed opening, and
/// recalled memories, when there are any, end it on a line of their own;
/// without memories it ends with the closing sentence.
pub proof fn law_system_prompt_parts(tool_names: Seq<char>, memory_ctx: Seq<char>)
    ensures
        ("You are ferroclaw, a local-first AI assistant. You have access to these tools: "@ + tool_names).is_prefix_of(
            system_prompt(tool_names, memory_ctx),
        ),
        memory_ctx.len() > 0 ==> ("\n"@ + memory_ctx).is_suffix_of(system_prompt(tool_names, memory_ctx)),
        memory_ctx.len() == 0 ==> ". Use them to help the user."@.is_suffix_of(system_prompt(tool_names, memory_ctx)),
{
    let head = "You are ferroclaw, a local-first AI assistant. You have access to these tools: "@ + tool_names;
    let base = head + ". Use them to help the user."@;
    let p = system_prompt(tool_names, memory_ctx);
    assert(p.subrange(0, head.len() as int) =~= head);
    if memory_ctx.len() > 0 {
        let tail = "\n"@ + memory_ctx;
        assert(p =~= base + tail);
        assert(p.subrange(p.len() - tail.len(), p.len() as int) =~= tail);
    } else {
        let tail = ". Use them to help the user."@;
        assert(p.subrange(p.len() - tail.len(), p.len() as int) =~= tail);
    }
}

/// Expansion only touches paths that start with `~/`: those become the home
/// directory (`.` when unknown) followed by the rest of the path from its
/// `/`; every other path comes back unchanged.
pub proof fn law_expand_only_home_paths(path: Seq<char>, home: Option<Seq<char>>)
    ensures
        !"~/"@.is_prefix_of(path) ==> expanded(path, home) == path,
        "~/"@.is_prefix_of(path) ==> {
            let h = match home {
                Some(h) => h,
                None => "."@,
            };
            &&& h.is_prefix_of(expanded(path, home))
            &&& path.subrange(1, path.len() as int).is_suffix_of(expanded(path, home))
            &&& expanded(path, home).len() == h.len() + path.len() - 1
        },
{
    reveal_strlit("~/");
    if "~/"@.is_prefix_of(path) {
        let h = match home {
            Some(h) => h,
            None => "."@,
        };
        let rest = path.subrange(1, path.len() as int);
        let e = expanded(path, home);
        assert(e.subrange(0, h.len() as int) =~= h);
        assert(e.subrange(e.len() - rest.len(), e.len() as int) =~= rest);
    }
}

} // verus!
