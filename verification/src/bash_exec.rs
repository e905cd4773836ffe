//! The `bash_exec` tool: reading its JSON input, spotting dangerous
//! commands, and turning a finished process into the tool's result.  Running
//! the process itself is left to the caller.
use vstd::prelude::*;
use vstd::utf8::*;
use vstd::string::*;
use crate::error::FerroError;
use crate::json::{json_str_field, json_u64_field, str_field, u64_field};
use crate::message::ToolResult;
use crate::text::{from_utf8_lossy, utf8_lossy, chars_of, string_from_range, concat, concat3, decimal, i64_to_decimal, signed_decimal, u64_to_decimal, usize_to_decimal};

verus! {

/// The timeout a `bash_exec` tool uses unless told otherwise, in seconds.
pub const DEFAULT_TIMEOUT_SECS: u64 = 30;

/// The most output bytes a result carries before it is truncated.
pub const MAX_OUTPUT_BYTES: usize = 10240;

/// The command fragments that `bash_exec` warns about (it does not block
/// them).
pub open spec fn dangerous_patterns() -> Seq<Seq<char>> {
    seq![
        "rm -rf /"@,
        "rm -rf ~"@,
        "sudo"@,
        "> /dev/sda"@,
        "mkfs"@,
        "dd if="@,
        ":(){ :|:& };:"@,
    ]
}

/// `p` occurs in `s` at position `i`.
pub open spec fn occurs_at(s: Seq<char>, p: Seq<char>, i: int) -> bool {
    0 <= i && i + p.len() <= s.len() && s.subrange(i, i + p.len()) == p
}

/// `p` occurs somewhere in `s` (`str::contains`).
pub open spec fn contains_seq(s: Seq<char>, p: Seq<char>) -> bool {
    exists|i: int| #[trigger] occurs_at(s, p, i)
}

fn matches_at(sc: &Vec<char>, pc: &Vec<char>, i: usize) -> (res: bool)
    requires
        i + pc.len() <= sc.len(),
    ensures
        res == occurs_at(sc@, pc@, i as int),
{
    let mut k: usize = 0;
    while k < pc.len()
        invariant
            i + pc.len() <= sc.len(),
            k <= pc@.len(),
            forall|m: int| 0 <= m < k ==> sc@[i + m] == pc@[m],
        decreases pc.len() - k,
    {
        if sc[i + k] != pc[k] {
            assert(sc@.subrange(i as int, i + pc@.len())[k as int] != pc@[k as int]);
            return false;
        }
        k = k + 1;
    }
    assert(sc@.subrange(i as int, i + pc@.len()) =~= pc@);
    true
}

/// Whether `p` occurs in `s`.
pub fn str_contains(s: &str, p: &str) -> (res: bool)
    ensures
        res == contains_seq(s@, p@),
{
    let sc = chars_of(s);
    let pc = chars_of(p);
    if pc.len() > sc.len() {
        assert forall|i: int| !occurs_at(s@, p@, i) by {}
        return false;
    }
    let last = sc.len() - pc.len();
    let mut i: usize = 0;
    while i <= last
        invariant
            sc@ == s@,
            pc@ == p@,
            pc@.len() <= sc@.len(),
            last == sc@.len() - pc@.len(),
            i <= last,
            forall|m: int| 0 <= m < i ==> !occurs_at(s@, p@, m),
        ensures
            forall|m: int| 0 <= m <= last ==> !occurs_at(s@, p@, m),
        decreases last - i,
    {
        if matches_at(&sc, &pc, i) {
            return true;
        }
        if i == last {
            break;
        }
        i = i + 1;
    }
    assert forall|m: int| !occurs_at(s@, p@, m) by {
        if 0 <= m && m + p@.len() <= s@.len() {
            assert(m <= last);
        }
    }
    false
}

fn dangerous_pattern_list() -> (res: Vec<&'static str>)
    ensures
        res@.map_values(|p: &str| p@) == dangerous_patterns(),
{
    let mut v: Vec<&'static str> = Vec::new();
    v.push("rm -rf /");
    v.push("rm -rf ~");
    v.push("sudo");
    v.push("> /dev/sda");
    v.push("mkfs");
    v.push("dd if=");
    v.push(":(){ :|:& };:");
    assert(v@.map_values(|p: &str| p@) =~= dangerous_patterns());
    v
}

/// The dangerous patterns that occur in `command`, in list order.
pub open spec fn dangerous_in(command: Seq<char>) -> Seq<Seq<char>> {
    dangerous_patterns().filter(|p: Seq<char>| contains_seq(command, p))
}

/// The dangerous fragments that `command` contains, in list order; the tool
/// warns about each of them.
pub fn check_dangerous(command: &str) -> (res: Vec<String>)
    ensures
        res@.map_values(|s: String| s@) == dangerous_in(command@),
{
    let patterns = dangerous_pattern_list();
    let ghost pv = patterns@.map_values(|p: &str| p@);
    let mut found: Vec<String> = Vec::new();
    let mut i: usize = 0;
    while i < patterns.len()
        invariant
            i <= patterns@.len(),
            pv == patterns@.map_values(|p: &str| p@),
            pv == dangerous_patterns(),
            found@.map_values(|s: String| s@) == pv.subrange(0, i as int).filter(
                |p: Seq<char>| contains_seq(command@, p),
            ),
        decreases patterns.len() - i,
    {
        let ghost before = found@;
        let p = patterns[i];
        assert(pv.subrange(0, i as int + 1).drop_last() =~= pv.subrange(0, i as int));
        assert(pv.subrange(0, i as int + 1).last() == p@);
        reveal_with_fuel(Seq::filter, 1);
        if str_contains(command, p) {
            found.push(p.to_owned());
            assert(found@.map_values(|s: String| s@) =~= before.map_values(|s: String| s@).push(p@));
        } else {
            assert(found@ == before);
        }
        i = i + 1;
    }
    assert(pv.subrange(0, pv.len() as int) =~= pv);
    found
}

/// The suffix that marks truncated output.
pub open spec fn truncation_note(max: nat) -> Seq<char> {
    "\n… [output truncated at "@ + decimal(max) + " bytes]"@
}

/// The longest prefix of `s` whose UTF-8 encoding takes at most `max` bytes.
pub open spec fn fitting_prefix(s: Seq<char>, max: nat) -> Seq<char>
    decreases s.len(),
{
    if s.len() == 0 || encode_utf8(s).len() <= max {
        s
    } else {
        fitting_prefix(s.drop_last(), max)
    }
}

/// `s` itself when its encoding takes at most `max` bytes; otherwise the
/// longest prefix of `s` that fits in `max` bytes (the cut falls on the last
/// character boundary within the limit), followed by the truncation note.
pub open spec fn truncated(s: Seq<char>, max: nat) -> Seq<char> {
    if encode_utf8(s).len() <= max {
        s
    } else {
        fitting_prefix(s, max) + truncation_note(max)
    }
}

/// The encoding of a concatenation is the concatenation of the encodings.
proof fn lemma_encode_concat(a: Seq<char>, b: Seq<char>)
    ensures
        encode_utf8(a + b) == encode_utf8(a) + encode_utf8(b),
    decreases a.len(),
{
    if a.len() == 0 {
        assert(a + b =~= b);
        assert(encode_utf8(a) + encode_utf8(b) =~= encode_utf8(b));
    } else {
        assert((a + b).drop_first() =~= a.drop_first() + b);
        assert((a + b)[0] == a[0]);
        lemma_encode_concat(a.drop_first(), b);
        assert(encode_utf8(a + b) =~= encode_utf8(a) + encode_utf8(b));
    }
}

/// Extending a prefix by one character adds that character's encoding.
proof fn lemma_encode_prefix_step(s: Seq<char>, k: int)
    requires
        0 <= k < s.len(),
    ensures
        encode_utf8(s.subrange(0, k + 1)) == encode_utf8(s.subrange(0, k)) + encode_scalar(s[k] as u32),
{
    assert(s.subrange(0, k + 1) =~= s.subrange(0, k) + seq![s[k]]);
    lemma_encode_concat(s.subrange(0, k), seq![s[k]]);
    let one = seq![s[k]];
    assert(one.drop_first() =~= Seq::<char>::empty());
    assert(encode_utf8(one.drop_first()) =~= Seq::<u8>::empty());
    assert(one[0] == s[k]);
    assert(encode_utf8(one) =~= encode_scalar(s[k] as u32));
}

/// Longer prefixes have longer (or equal) encodings.
proof fn lemma_encode_prefix_monotone(s: Seq<char>, i: int, j: int)
    requires
        0 <= i <= j <= s.len(),
    ensures
        encode_utf8(s.subrange(0, i)).len() <= encode_utf8(s.subrange(0, j)).len(),
{
    assert(s.subrange(0, j) =~= s.subrange(0, i) + s.subrange(i, j));
    lemma_encode_concat(s.subrange(0, i), s.subrange(i, j));
}

/// What `fitting_prefix` is: a prefix that fits, and either all of `s` or
/// one character short of not fitting.
proof fn lemma_fitting_prefix(s: Seq<char>, max: nat)
    ensures
        fitting_prefix(s, max).len() <= s.len(),
        fitting_prefix(s, max) == s.subrange(0, fitting_prefix(s, max).len() as int),
        encode_utf8(fitting_prefix(s, max)).len() <= max,
        fitting_prefix(s, max).len() < s.len() ==> encode_utf8(
            s.subrange(0, fitting_prefix(s, max).len() as int + 1),
        ).len() > max,
    decreases s.len(),
{
    if s.len() == 0 || encode_utf8(s).len() <= max {
        assert(s.subrange(0, s.len() as int) =~= s);
        if s.len() == 0 {
            assert(encode_utf8(s) =~= Seq::<u8>::empty());
        }
    } else {
        let t = s.drop_last();
        lemma_fitting_prefix(t, max);
        let f = fitting_prefix(t, max);
        assert(f == s.subrange(0, f.len() as int));
        if f.len() < t.len() {
            assert(t.subrange(0, f.len() as int + 1) =~= s.subrange(0, f.len() as int + 1));
        } else {
            assert(s.subrange(0, f.len() as int + 1) =~= s);
        }
    }
}

/// A prefix of `k` characters that fits while one more character does not
/// (or that is all of `s`) is the fitting prefix.
proof fn lemma_fitting_prefix_unique(s: Seq<char>, max: nat, k: int)
    requires
        0 <= k <= s.len(),
        encode_utf8(s.subrange(0, k)).len() <= max,
        k < s.len() ==> encode_utf8(s.subrange(0, k + 1)).len() > max,
    ensures
        fitting_prefix(s, max) == s.subrange(0, k),
{
    lemma_fitting_prefix(s, max);
    let m = fitting_prefix(s, max).len() as int;
    if m < k {
        lemma_encode_prefix_monotone(s, m + 1, k);
    } else if k < m {
        lemma_encode_prefix_monotone(s, k + 1, m);
    }
}

/// The number of bytes UTF-8 takes for `c`.
fn utf8_width(c: char) -> (w: usize)
    ensures
        w == encode_scalar(c as u32).len(),
        1 <= w <= 4,
{
    let u = c as u32;
    if u <= 0x7F {
        1
    } else if u <= 0x7FF {
        2
    } else if u <= 0xFFFF {
        3
    } else {
        4
    }
}

/// Cuts `s` to at most `max` bytes at the last character boundary within
/// the limit, noting the cut.
pub fn truncate(s: String, max: usize) -> (res: String)
    ensures
        res@ == truncated(s@, max as nat),
{
    broadcast use vstd::utf8::encode_utf8_valid_utf8;
    let t = s.as_str();
    let byte_len = t.as_bytes().len();
    assert(byte_len == encode_utf8(s@).len()) by {
        assert(t@ == s@);
        assert(t.spec_bytes() == encode_utf8(t@));
    }
    if byte_len <= max {
        return s;
    }
    let cs = chars_of(s.as_str());
    let mut k: usize = 0;
    let mut used: usize = 0;
    assert(s@.subrange(0, 0) =~= Seq::<char>::empty());
    assert(encode_utf8(Seq::<char>::empty()) =~= Seq::<u8>::empty());
    loop
        invariant
            cs@ == s@,
            encode_utf8(s@).len() > max,
            k <= cs@.len(),
            used == encode_utf8(s@.subrange(0, k as int)).len(),
            used <= max,
        ensures
            k < cs@.len(),
            used == encode_utf8(s@.subrange(0, k as int)).len(),
            used <= max,
            encode_utf8(s@.subrange(0, k as int + 1)).len() > max,
        decreases cs@.len() - k,
    {
        if k == cs.len() {
            assert(s@.subrange(0, k as int) =~= s@);
            assert(false);
            break;
        }
        let w = utf8_width(cs[k]);
        proof {
            lemma_encode_prefix_step(s@, k as int);
        }
        if w > max - used {
            break;
        }
        used = used + w;
        k = k + 1;
    }
    proof {
        lemma_fitting_prefix_unique(s@, max as nat, k as int);
    }
    let head = string_from_range(&cs, 0, k);
    let digits = usize_to_decimal(max);
    let note = concat3("\n… [output truncated at ", digits.as_str(), " bytes]");
    assert(note@ == truncation_note(max as nat));
    concat(head.as_str(), note.as_str())
}

/// Output within the limit is kept whole.  Longer output keeps the longest
/// prefix whose encoding fits in `max` bytes (at least `max - 3` bytes of it,
/// since a character takes at most four), followed by the note.
pub proof fn law_truncation_keeps_prefix(s: Seq<char>, max: nat)
    ensures
        encode_utf8(s).len() <= max ==> truncated(s, max) == s,
        encode_utf8(s).len() > max ==> {
            let kept = fitting_prefix(s, max);
            &&& kept.is_prefix_of(s)
            &&& encode_utf8(kept).len() <= max
            &&& encode_utf8(kept).len() + 4 > max
            &&& forall|k: int|
                0 <= k <= s.len() && #[trigger] encode_utf8(s.subrange(0, k)).len() <= max ==> k
                    <= kept.len()
            &&& truncated(s, max) == kept + truncation_note(max)
        },
{
    lemma_fitting_prefix(s, max);
    let kept = fitting_prefix(s, max);
    if encode_utf8(s).len() > max {
        let m = kept.len() as int;
        if m == s.len() {
            assert(s.subrange(0, m) =~= s);
        }
        assert(m < s.len());
        lemma_encode_prefix_step(s, m);
        assert forall|k: int|
            0 <= k <= s.len() && #[trigger] encode_utf8(s.subrange(0, k)).len() <= max implies k
                <= kept.len() by {
            if k > m {
                lemma_encode_prefix_monotone(s, m + 1, k);
            }
        }
    }
}

/// A process's output as the tool reports it: standard output followed by
/// standard error, each decoded leniently.
pub fn combine_output(stdout: &[u8], stderr: &[u8]) -> (res: String)
    ensures
        res@ == utf8_lossy(stdout@) + utf8_lossy(stderr@),
{
    let out = from_utf8_lossy(stdout);
    let err = from_utf8_lossy(stderr);
    concat(out.as_str(), err.as_str())
}

/// The output text of a finished command: the (possibly truncated) combined
/// output, preceded by `[exit <code>]` and a newline when the command
/// failed (code -1 when it has none, e.g. when killed by a signal).
pub open spec fn exec_output_text(combined: Seq<char>, success: bool, exit_code: Option<i32>) -> Seq<char> {
    let body = truncated(combined, MAX_OUTPUT_BYTES as nat);
    if success {
        body
    } else {
        let code: int = match exit_code {
            Some(c) => c as int,
            None => -1,
        };
        "[exit "@ + signed_decimal(code) + "]\n"@ + body
    }
}

/// Whether or not the command succeeded, its output text ends with the
/// truncated combined output, which never takes more than `MAX_OUTPUT_BYTES`
/// bytes plus the note; a successful command's text is just that, a failed
/// one's starts with `[exit `.
pub proof fn law_output_is_always_truncated(combined: Seq<char>, success: bool, exit_code: Option<i32>)
    ensures
        truncated(combined, MAX_OUTPUT_BYTES as nat).is_suffix_of(exec_output_text(combined, success, exit_code)),
        success ==> exec_output_text(combined, success, exit_code) == truncated(combined, MAX_OUTPUT_BYTES as nat),
        !success ==> "[exit "@.is_prefix_of(exec_output_text(combined, success, exit_code)),
        encode_utf8(truncated(combined, MAX_OUTPUT_BYTES as nat)).len() <= MAX_OUTPUT_BYTES + encode_utf8(
            truncation_note(MAX_OUTPUT_BYTES as nat),
        ).len(),
{
    let max = MAX_OUTPUT_BYTES as nat;
    let body = truncated(combined, max);
    let text = exec_output_text(combined, success, exit_code);
    if encode_utf8(combined).len() > max {
        lemma_fitting_prefix(combined, max);
        lemma_encode_concat(fitting_prefix(combined, max), truncation_note(max));
    }
    if !success {
        let code: int = match exit_code {
            Some(c) => c as int,
            None => -1,
        };
        let head = "[exit "@ + signed_decimal(code) + "]\n"@;
        assert(text == head + body);
        assert(text.subrange(text.len() - body.len(), text.len() as int) =~= body);
        assert(text.subrange(0, "[exit "@.len() as int) =~= "[exit "@);
    } else {
        assert(text.subrange(text.len() - body.len(), text.len() as int) =~= body);
    }
}

/// The error `bash_exec` reports: the tool name and a message.
pub open spec fn is_bash_error(e: FerroError, message: Seq<char>) -> bool {
    e matches FerroError::ToolExecution { tool, message: m } && tool@ == "bash_exec"@ && m@ == message
}

/// The `bash_exec` tool: runs a bash command with a timeout.
#[derive(Debug)]
pub struct BashExecTool {
    timeout_secs: u64,
}

impl BashExecTool {
    /// A tool with the default timeout of 30 seconds.
    pub fn new() -> (res: Self)
        ensures
            res.timeout() == DEFAULT_TIMEOUT_SECS,
    {
        BashExecTool { timeout_secs: DEFAULT_TIMEOUT_SECS }
    }

    /// A tool with a timeout of `secs` seconds.
    pub fn with_timeout(secs: u64) -> (res: Self)
        ensures
            res.timeout() == secs,
    {
        BashExecTool { timeout_secs: secs }
    }

    /// The default timeout of this tool, in seconds.
    pub closed spec fn timeout(&self) -> u64 {
        self.timeout_secs
    }

    /// The default timeout of this tool, in seconds.
    pub fn timeout_secs(&self) -> (res: u64)
        ensures
            res == self.timeout(),
    {
        self.timeout_secs
    }

    /// The tool's name.
    pub fn name(&self) -> (res: &'static str)
        ensures
            res@ == "bash_exec"@,
    {
        "bash_exec"
    }

    /// The tool's description, as shown to the model.
    pub fn description(&self) -> (res: &'static str)
        ensures
            res@ == "Execute a bash command and return its output (stdout + stderr combined). Times out after 30 seconds by default. Output is truncated at 10 KB."@,
    {
        "Execute a bash command and return its output (stdout + stderr combined). Times out after 30 seconds by default. Output is truncated at 10 KB."
    }

    /// Reads the tool's JSON input: the `command` string (an error naming
    /// the missing field without it) and the timeout, `timeout_secs` when
    /// the input holds one and the tool's own timeout otherwise.
    pub fn parse_input(&self, input: &str) -> (res: Result<(String, u64), FerroError>)
        ensures
            match json_str_field(input@, "command"@) {
                Some(c) => res matches Ok((cmd, t)) && cmd@ == c && t == match json_u64_field(
                    input@,
                    "timeout_secs"@,
                ) {
                    Some(v) => v,
                    None => self.timeout(),
                },
                None => res matches Err(e) && is_bash_error(e, "missing 'command' field"@),
            },
    {
        let command = match str_field(input, "command") {
            Some(c) => c,
            None => {
                return Err(
                    FerroError::ToolExecution {
                        tool: "bash_exec".to_owned(),
                        message: "missing 'command' field".to_owned(),
                    },
                );
            },
        };
        let timeout = match u64_field(input, "timeout_secs") {
            Some(t) => t,
            None => self.timeout_secs,
        };
        Ok((command, timeout))
    }

    /// The result of a finished command: output text as `exec_output_text`
    /// describes, marked as an error exactly when the command failed.
    pub fn finished_result(&self, call_id: String, combined: String, success: bool, exit_code: Option<i32>) -> (res: ToolResult)
        ensures
            res.tool_call_id == call_id,
            res.tool_name@ == "bash_exec"@,
            res.output@ == exec_output_text(combined@, success, exit_code),
            res.is_error == !success,
            truncated(combined@, MAX_OUTPUT_BYTES as nat).is_suffix_of(res.output@),
            success ==> res.output@ == truncated(combined@, MAX_OUTPUT_BYTES as nat),
    {
        proof {
            law_output_is_always_truncated(combined@, success, exit_code);
        }
        let body = truncate(combined, MAX_OUTPUT_BYTES);
        let output = if success {
            body
        } else {
            let code: i64 = match exit_code {
                Some(c) => c as i64,
                None => -1,
            };
            let digits = i64_to_decimal(code);
            let head = concat3("[exit ", digits.as_str(), "]\n");
            concat(head.as_str(), body.as_str())
        };
        ToolResult { tool_call_id: call_id, tool_name: "bash_exec".to_owned(), output, is_error: !success }
    }

    /// The error for a command that did not finish within `secs` seconds.
    pub fn timeout_error(&self, secs: u64) -> (res: FerroError)
        ensures
            is_bash_error(res, "timed out after "@ + decimal(secs as nat) + "s"@),
    {
        let digits = u64_to_decimal(secs);
        FerroError::ToolExecution { tool: "bash_exec".to_owned(), message: concat3("timed out after ", digits.as_str(), "s") }
    }

    /// The error for a command that could not be started.
    pub fn spawn_error(&self, message: String) -> (res: FerroError)
        ensures
            is_bash_error(res, message@),
    {
        FerroError::ToolExecution { tool: "bash_exec".to_owned(), message }
    }
}

impl Default for BashExecTool {
    fn default() -> (res: Self)
        ensures
            res.timeout() == DEFAULT_TIMEOUT_SECS,
    {
        Self::new()
    }
}

} // verus!
